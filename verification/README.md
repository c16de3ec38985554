# ipv6_pool_proxy

An outbound HTTP and SOCKS5 proxy that sends each connection from an IPv6
address of its own. The address is either any one of a network, or one of a
pool that is bound to a network interface ahead of use. An address of the pool
is leased once: when its connection has ended it cools down, is taken off the
interface, and a fresh one takes its place.

`src/` is the library, verified with Verus: what the options ask for, which
source is served from and with which credentials, what each message means, and
what is done next at every point. It opens no socket and runs no command.

| module | what it decides |
| --- | --- |
| `subnet` | networks in CIDR notation, and addresses drawn out of them |
| `text`, `address` | numbers and addresses as text and as octets |
| `pool`, `pool_laws` | the bookkeeping of a pool, how it is filled and recycled |
| `lease_laws` | that no address of a pool is leased twice |
| `interface_laws` | which addresses are on the interface |
| `source` | where the address of a connection comes from |
| `socks5` | the messages of a SOCKS5 client and the replies to them |
| `session`, `session_laws` | the course of a SOCKS5 connection |
| `proxy`, `proxy_laws` | the course of a request to the HTTP proxy |
| `startup` | from the command line to running proxies, and what they are run with |

What takes several steps is a state machine: it says what to do next, and takes
in what came of it. `app/` is the program that does it, with `tokio` and
`hyper`.

A request or a `CONNECT` that finds no address is answered with `503 Service
Unavailable`; a SOCKS5 client with a general failure.

The modules whose names end in `_laws` prove what holds over whole runs, among
other things that every leased address is given back exactly once, that only a
client with the right name and password is served, that a pool keeps its size as
long as its commands succeed, and that no address is leased twice. This last
holds whatever is released, unless a replacement draws the address that another
one is about to bind. That the interface has what can be leased and what is in
use, besides its own addresses, holds where clients release what they hold, no
deletion fails, and the interface takes no address that it already has.
