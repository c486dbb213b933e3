# kuberaid

A storage manager that exposes a node's ZFS pools to Kubernetes.

`src/` is the verified library (Verus):

- `text`, `number`: character-level text handling and integer parsing/rendering, each
  stated over the string's characters.
- `scalar`, `object`, `cli`: property values as `zfs`/`zpool` print them, pools and
  datasets with their properties, and how the commands are asked and answered.
- `event`: reading the text of `zpool events -vH` into typed events.
- `strmap`: the association-list map, keyed by text, used for properties and the
  tree's datasets (the tree keeps its pools, keyed by GUID, in std's `HashMap`).
- `tree`, `watch`: the cached tree of pools and datasets, and what the event watcher does
  with each event.
- `crds`, `common`, `manager`, `csi`, `greeter`: resource shapes and the decisions of the
  controllers, the manager API, the CSI plugin and the agent.

`app/` is the program around it: running the commands, JSON decoding, the event stream,
the Kubernetes controllers and the command line.

What `app/` does not wire: the manager's gRPC API (`watch_state`, `list_pools`,
`get_pool`), the CSI servers and the agent's greeter are served over gRPC with code
generated from `.proto` files that this tree does not contain, so no server is built.
Their decisions stand verified in `src/` (`manager::list_pools`, `get_pool_summary`,
`csi`, `greeter`) and nothing in `app/` calls them yet. For the same reason the
command line has no `csi` subcommand.
