# gateway-api

Durations in the format of GEP-2257 (Gateway API) and the GatewayClass
resource types, verified with Verus.

- `src/duration.rs`: `Duration`, a whole number of milliseconds up to
  99999h59m59s999ms; its constructors, getters and text form.
- `src/text.rs`: the GEP-2257 grammar `^([0-9]{1,5}(h|m|s|ms)){1,4}$`, what a
  text in it stands for, how a duration is written, and the proofs that every
  duration is written in the grammar as a text that stands for it.
- `src/parse.rs`: parsing a text, and converting Kubernetes and `std`
  durations.
- `src/interop.rs`: the calls into `kube` and `std::time`, with the contracts
  that are taken on trust.
- `src/laws.rs`: what holds of parsing and writing together.
- `src/gatewayclasses.rs`: the GatewayClass data types.
- `app/`: the `Display`, `FromStr` and `TryFrom` impls of durations, and the
  serde and custom-resource derives of the GatewayClass types.
