# navigator_bootstrap

Local development clusters for Navigator, and the way into their sandboxes.

The library under `src/` decides; it reads no file and opens no connection. Its
functions carry contracts that Verus proves, and what holds of several of them
together stands beside them as proof functions whose names begin with `law_`.

| Module | What it decides |
| --- | --- |
| `cluster`, `handle` | names, images, and the container, network and volume of a cluster |
| `deploy`, `deploy_plan`, `destroy` | the steps that bring a cluster up and take it down, and what each asks for |
| `docker`, `poll`, `exec` | what the Docker engine's replies mean, how long to wait, what a command printed |
| `kubeconfig`, `merge` | rewriting a cluster's kubeconfig, and putting it into the user's own |
| `gateway_tls`, `yaml` | whether the gateway speaks TLS |
| `mtls`, `codec`, `bundle_store` | reading the client certificate and storing it without losing one |
| `ssh`, `shell` | the commands that reach a sandbox, and their quoting |
| `proxy` | the proxy between an SSH client and the gateway |
| `paths`, `cli` | where things are kept, and what the command line decides |
| `text`, `lines`, `numbers`, `lossy` | characters, lines, decimal numbers, bytes read as text |

`app/` is the program around the library: it talks to Docker, the disk, the
network and the user, and hands plain values back and forth. The sandbox commands
there take the server that grants SSH sessions as a parameter.

A few outside functions are believed as they are documented: `serde_yaml::from_str`
and the accessors of its values, base64 decoding, `Url::parse`,
`ServerName::try_from`, and of the standard library `String::from_utf8_lossy`,
`String::push` and `String::from`. Each has one contract, which says what is claimed
of it.
