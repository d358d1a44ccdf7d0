# kubvernor

Kubvernor manages gateways of the Kubernetes Gateway API. It reads gateways and routes of a cluster,
works out what a data plane has to be told of them, deploys the data plane and serves its discovery
protocol. Envoy and Agentgateway are the data planes.

`src/` is the library, verified with Verus:

- `common/`: gateways, listeners, routes, backends and their conditions as they are read from the
  cluster, and the references among them;
- `backends/`: what the data planes are told. `envoy/` and `agentgateway/` hold the resources of each,
  the generators that make them of gateways, and the discovery services; `deployment`, `file_deployer`
  and `templates` plan what is deployed; `sources` tells which templates can be rendered: text with
  variables, conditions and loops over lists;
- `model`, `order`, `ordered`, `sorting`, `lists`, `text`, `identifiers`: the models of values, ordered
  maps and sets, stable sorting, lists and texts that all of it rests on.

Contracts speak of `deep_view()`, the mathematical value that a type stands for. What holds of several
functions together is proved in the functions whose names begin with `law_`.

Outside crates are called behind small wrappers that state what is relied on: `uuid`, `multimap`,
`lru_time_cache`, `tera` and `serde_json`.

`app/` runs the library: it talks to the cluster, encodes messages and serves gRPC. `tests/` holds the
tests.
