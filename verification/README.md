# weechatrs

The logic of a desktop chat client for WeeChat relays and IRC bouncers, written
and proved in Verus.

`src/` is the library. It holds the state of the client (`state.rs`) and
everything that changes it: events of a connection (`backend.rs`, `events.rs`,
`relay_*.rs`), what the user does (`session.rs`, `composer.rs`, `mentions.rs`,
`navigate.rs`, `panels.rs`, `sidebar.rs`, `share.rs`), and how it starts and
what it keeps (`startup.rs`, `connection.rs`). Around the state stand functions
on plain values: lines and their order (`lines.rs`, `order.rs`, `timeline.rs`),
Matrix rooms, threads and people (`rooms.rs`, `threads.rs`, `people.rs`), read
markers (`markers.rs`), images and previews (`media.rs`, `content.rs`,
`preview.rs`), uploads (`uploads.rs`), the conversation with KWallet
(`kwallet.rs`), and the texts, sequences and collections that all of them are
built on (`text.rs`, `seqs.rs`, `collections.rs`).

Every type has a mathematical view. A method that changes the state says in its
contract which state comes of which, as an equation between views. Nothing in
the library performs input or output: what is to be done outside is queued as
`Action` values, and what came back is handed in as an argument.

What holds of several functions together is stated by public proof functions
beside them, for example that no event makes a buffer outgrow its limit
(`limits.rs`), that no connection touches the lines of another (`isolation.rs`),
that distinct ids stay distinct (`identity.rs`), that new lines leave a buffer in
the order of time and never less urgent (`arrivals.rs`),
that read markers never move back, that a saved order never tears
a server group apart, or that a timeline shows every line once and in order.

Calls into other crates (dates, base64, digests, addresses, images) stand behind
small functions whose contracts say what is taken for granted of them.

`tests/` runs the library on concrete values. `app/` is the desktop shell:
windows, files, the network and the secure store. A program that embeds it
supplies the network clients through the traits in `app/host.rs`, and chooses the
renderer of `eframe`, the backend of `keyring` and the TLS library of `reqwest`
by their features.
