# zenoh-plugin-dds

A bridge between DDS and zenoh whose logic is verified with Verus.

The library under `src/` decides; the program under `app/` asks it what to do, does it with CycloneDDS and
zenoh, and tells it what came of that.

| module | what it holds |
| --- | --- |
| `config`, `pattern`, `args` | the settings, how they are read, and the command line |
| `text`, `number`, `json`, `collections` | texts, numbers, JSON values, sets and maps of texts |
| `key_expr`, `keys` | key expressions of zenoh, and those that the bridges use |
| `qos`, `qos_helpers`, `qos_holder`, `policies` | QoS policies, and how they are adapted for the other side |
| `entity`, `gid`, `dds_mgt`, `discoverer` | what the discovery of DDS tells |
| `routes` | a route from DDS to zenoh, and one from zenoh to DDS |
| `queries` | how queries are sent, and from where data are taken |
| `runtime` | what a bridge knows: entities, routes, admin space |
| `routing`, `jobs` | how an endpoint is routed, target by target |
| `changes`, `departure` | what becomes of routes when an endpoint or another bridge is gone |
| `discovery`, `modes` | what a bridge does with each event, in either mode |
| `ros_discovery`, `remap` | what ROS nodes tell of themselves, with the ids of the routes that stand for them |
| `admin`, `sub_paths` | queries on the admin space |
| `laws`, `histories` | what holds of a bridge whatever happens, and in every state that it comes to |

## How a bridge runs

An event goes to `DdsPluginRuntime::on_local_event`, or to `on_forward_event` and `on_remote_message` where
discovery is forwarded. The step that comes back tells what is left to do: routes to make, routes to drop,
messages to send. A route is made in a loop. `next_from_dds` or `next_to_dds` plans what has to be made for
the next target of a job, and `advance_from_dds` or `advance_to_dds` takes in what came of it.

## What is trusted

The contracts of a few calls are believed, not proved. They are marked `external_body`, and each says what
it claims: the key expressions of `zenoh` (`src/key_expr.rs`), the patterns of `regex` (`src/pattern.rs`),
`hex` (`src/gid.rs`) and the strings of `serde_json` (`src/args.rs`).
