//! The cross-node session index and the liveness records, as commands to
//! the shared key-value store.
//!
//! Each node keeps two hashes in the shared store: one from the address of
//! a connection to the id of the device behind it, one from the device id
//! back to the address. Messages for a device are routed through the
//! second, so an entry must be in both hashes or in neither. The functions
//! here say which commands register, refresh and clean up a connection; a
//! model of the store says what those commands do, and the lemmas state
//! what follows for the index. The commands of one list belong together:
//! the caller sends them to the store as one transaction.

use vstd::prelude::*;
use vstd::string::StringExecFns;
use crate::naming::{
    address_index, address_index_key, device_index, device_index_key, liveness_key,
    liveness_record_key,
};
use crate::text::{push_signed_decimal, signed_decimal};

verus! {

/// One write to the shared key-value store.
#[derive(Debug, Clone, PartialEq, Eq)]
pub enum StoreCommand {
    /// Deletes the hash stored under `key` with all its fields.
    DeleteHash { key: String },
    /// Sets one field of the hash stored under `key`.
    SetHashField { key: String, field: String, value: String },
    /// Deletes one field of the hash stored under `key`.
    DeleteHashField { key: String, field: String },
    /// Sets the string stored under `key`.
    SetString { key: String, value: String },
}

/// A command as a mathematical value.
pub enum Command {
    DeleteHash { key: Seq<char> },
    SetHashField { key: Seq<char>, field: Seq<char>, value: Seq<char> },
    DeleteHashField { key: Seq<char>, field: Seq<char> },
    SetString { key: Seq<char>, value: Seq<char> },
}

impl View for StoreCommand {
    type V = Command;

    open spec fn view(&self) -> Command {
        match self {
            StoreCommand::DeleteHash { key } => Command::DeleteHash { key: key@ },
            StoreCommand::SetHashField { key, field, value } => Command::SetHashField {
                key: key@,
                field: field@,
                value: value@,
            },
            StoreCommand::DeleteHashField { key, field } => Command::DeleteHashField {
                key: key@,
                field: field@,
            },
            StoreCommand::SetString { key, value } => Command::SetString {
                key: key@,
                value: value@,
            },
        }
    }
}

/// The commands of a list as mathematical values.
pub open spec fn commands(list: Seq<StoreCommand>) -> Seq<Command> {
    Seq::new(list.len(), |i: int| list[i]@)
}

/// One field of a hash in the shared store, to be read.
#[derive(Debug, Clone, PartialEq, Eq)]
pub struct HashField {
    pub key: String,
    pub field: String,
}

/// What the shared store holds: strings and hashes, by key. A hash without
/// fields and a hash that is not there are the same to every reader.
pub struct Store {
    pub strings: Map<Seq<char>, Seq<char>>,
    pub hashes: Map<Seq<char>, Map<Seq<char>, Seq<char>>>,
}

impl Store {
    /// The hash stored under `key`; without fields if none is stored.
    pub open spec fn hash(self, key: Seq<char>) -> Map<Seq<char>, Seq<char>> {
        if self.hashes.contains_key(key) {
            self.hashes[key]
        } else {
            Map::empty()
        }
    }

    /// The store after `command`.
    pub open spec fn apply(self, command: Command) -> Store {
        match command {
            Command::DeleteHash { key } => Store { hashes: self.hashes.remove(key), ..self },
            Command::SetHashField { key, field, value } => Store {
                hashes: self.hashes.insert(key, self.hash(key).insert(field, value)),
                ..self
            },
            Command::DeleteHashField { key, field } => if self.hash(key).contains_key(field) {
                Store { hashes: self.hashes.insert(key, self.hash(key).remove(field)), ..self }
            } else {
                self
            },
            Command::SetString { key, value } => Store {
                strings: self.strings.insert(key, value),
                ..self
            },
        }
    }

    /// The store after the commands of `list`, in order.
    pub open spec fn apply_all(self, list: Seq<Command>) -> Store
        decreases list.len(),
    {
        if list.len() == 0 {
            self
        } else {
            self.apply_all(list.drop_last()).apply(list.last())
        }
    }

    /// The device ids bound on `node`, each with the address of its
    /// connection.
    pub open spec fn devices(self, node: Seq<char>) -> Map<Seq<char>, Seq<char>> {
        self.hash(device_index_key(node))
    }

    /// The addresses connected to `node`, each with the id of the device
    /// behind it.
    pub open spec fn addresses(self, node: Seq<char>) -> Map<Seq<char>, Seq<char>> {
        self.hash(address_index_key(node))
    }

    /// Whether an address is bound to a device on `node`.
    pub open spec fn binds(self, node: Seq<char>, address: Seq<char>, device: Seq<char>) -> bool {
        self.addresses(node).contains_key(address) && self.addresses(node)[address] == device
    }

    /// Whether a device is routed to an address on `node`.
    pub open spec fn routes(self, node: Seq<char>, device: Seq<char>, address: Seq<char>) -> bool {
        self.devices(node).contains_key(device) && self.devices(node)[device] == address
    }

    /// The invariant of the session index of `node`: the two hashes hold
    /// the same pairs, each in one direction.
    pub open spec fn index_consistent(self, node: Seq<char>) -> bool {
        forall|address: Seq<char>, device: Seq<char>|
            #[trigger] self.binds(node, address, device) <==> #[trigger] self.routes(
                node,
                device,
                address,
            )
    }
}

/// The device id bound to `address` on `node`, or `None`.
pub open spec fn bound_device(store: Store, node: Seq<char>, address: Seq<char>) -> Option<
    Seq<char>,
> {
    if store.addresses(node).contains_key(address) {
        Some(store.addresses(node)[address])
    } else {
        None
    }
}

/// The commands that bind `address` to `device` on `node`.
pub open spec fn bind_list(node: Seq<char>, address: Seq<char>, device: Seq<char>) -> Seq<
    Command,
> {
    seq![
        Command::SetHashField { key: device_index_key(node), field: device, value: address },
        Command::SetHashField { key: address_index_key(node), field: address, value: device },
    ]
}

/// The commands that clean up after the connection from `address` on
/// `node`, where `device` is what the address is bound to.
pub open spec fn cleanup_list(node: Seq<char>, address: Seq<char>, device: Option<Seq<char>>) -> Seq<
    Command,
> {
    match device {
        Some(device) => seq![
            Command::DeleteHashField { key: device_index_key(node), field: device },
            Command::DeleteHashField { key: address_index_key(node), field: address },
        ],
        None => Seq::empty(),
    }
}

/// The commands that clear the session index of `node`.
pub open spec fn startup_list(node: Seq<char>) -> Seq<Command> {
    seq![
        Command::DeleteHash { key: address_index_key(node) },
        Command::DeleteHash { key: device_index_key(node) },
    ]
}

/// Two commands in a row are applied one after the other.
proof fn lemma_apply_pair(store: Store, first: Command, second: Command)
    ensures
        store.apply_all(seq![first, second]) == store.apply(first).apply(second),
{
    let list = seq![first, second];
    assert(list.drop_last() =~= seq![first]);
    assert(list.drop_last().drop_last() =~= Seq::<Command>::empty());
    assert(store.apply_all(Seq::<Command>::empty()) == store);
    assert(store.apply_all(seq![first]) == store.apply(first)) by {
        assert(seq![first].drop_last() =~= Seq::<Command>::empty());
        assert(seq![first].last() == first);
    }
}

/// The two hashes of a node are stored under different keys.
pub proof fn lemma_index_keys_differ(node: Seq<char>)
    ensures
        device_index_key(node) != address_index_key(node),
{
    reveal_strlit("tcp_uid:");
    reveal_strlit("tcp_uid_f:");
    assert(device_index_key(node)[7] == ':');
    assert(address_index_key(node)[7] == '_');
}

/// Cleaning up a connection takes its entry out of both hashes of the
/// index, or, where the address is not bound, changes nothing: never out
/// of one hash only. Every other entry stays, and a consistent index stays
/// consistent.
pub proof fn lemma_cleanup_both_or_neither(store: Store, node: Seq<char>, address: Seq<char>)
    ensures
        ({
            let device = bound_device(store, node, address);
            let after = store.apply_all(cleanup_list(node, address, device));
            &&& device is None ==> after == store
            &&& device matches Some(d) ==> {
                &&& after.addresses(node) == store.addresses(node).remove(address)
                &&& after.devices(node) == store.devices(node).remove(d)
                &&& !after.addresses(node).contains_key(address)
                &&& !after.devices(node).contains_key(d)
            }
            &&& after.strings == store.strings
            &&& store.index_consistent(node) ==> after.index_consistent(node)
        }),
{
    lemma_index_keys_differ(node);
    let device = bound_device(store, node, address);
    let list = cleanup_list(node, address, device);
    let after = store.apply_all(list);
    match device {
        None => {},
        Some(d) => {
            let first = store.apply(list[0]);
            lemma_apply_pair(store, list[0], list[1]);
            assert(list =~= seq![list[0], list[1]]);
            assert(first.addresses(node) =~= store.addresses(node));
            assert(first.devices(node) =~= store.devices(node).remove(d));
            assert(after.addresses(node) =~= store.addresses(node).remove(address));
            assert(after.devices(node) =~= store.devices(node).remove(d));
            if store.index_consistent(node) {
                assert forall|a: Seq<char>, dev: Seq<char>| #[trigger]
                    after.binds(node, a, dev) <==> #[trigger] after.routes(node, dev, a) by {
                    assert(store.binds(node, a, dev) <==> store.routes(node, dev, a));
                    assert(store.binds(node, address, d));
                    assert(store.binds(node, address, dev) <==> store.routes(node, dev, address));
                    assert(store.binds(node, a, d) <==> store.routes(node, d, a));
                }
            }
        },
    }
}

/// Binding writes the pair into both hashes of the index and leaves every
/// other entry as it was. If neither the address nor the device was in the
/// index before, a consistent index stays consistent.
pub proof fn lemma_bind_writes_both(
    store: Store,
    node: Seq<char>,
    address: Seq<char>,
    device: Seq<char>,
)
    ensures
        ({
            let after = store.apply_all(bind_list(node, address, device));
            &&& after.addresses(node) == store.addresses(node).insert(address, device)
            &&& after.devices(node) == store.devices(node).insert(device, address)
            &&& after.binds(node, address, device)
            &&& after.routes(node, device, address)
            &&& after.strings == store.strings
            &&& store.index_consistent(node) && !store.addresses(node).contains_key(address)
                && !store.devices(node).contains_key(device) ==> after.index_consistent(node)
        }),
{
    lemma_index_keys_differ(node);
    let list = bind_list(node, address, device);
    let after = store.apply_all(list);
    let first = store.apply(list[0]);
    lemma_apply_pair(store, list[0], list[1]);
    assert(list =~= seq![list[0], list[1]]);
    assert(first.addresses(node) =~= store.addresses(node));
    assert(first.devices(node) =~= store.devices(node).insert(device, address));
    assert(after.addresses(node) =~= store.addresses(node).insert(address, device));
    assert(after.devices(node) =~= store.devices(node).insert(device, address));
    if store.index_consistent(node) && !store.addresses(node).contains_key(address)
        && !store.devices(node).contains_key(device) {
        assert forall|a: Seq<char>, dev: Seq<char>| #[trigger]
            after.binds(node, a, dev) <==> #[trigger] after.routes(node, dev, a) by {
            assert(store.binds(node, a, dev) <==> store.routes(node, dev, a));
        }
    }
}

/// After the startup commands the index of the node is empty, and so
/// consistent.
pub proof fn lemma_startup_clears(store: Store, node: Seq<char>)
    ensures
        ({
            let after = store.apply_all(startup_list(node));
            &&& after.addresses(node) == Map::<Seq<char>, Seq<char>>::empty()
            &&& after.devices(node) == Map::<Seq<char>, Seq<char>>::empty()
            &&& after.index_consistent(node)
            &&& after.strings == store.strings
        }),
{
    lemma_index_keys_differ(node);
    let list = startup_list(node);
    let first = store.apply(list[0]);
    lemma_apply_pair(store, list[0], list[1]);
    assert(list =~= seq![list[0], list[1]]);
    assert(first.devices(node) =~= store.devices(node));
}

/// The field to read before cleaning up after the connection from
/// `remote_address`: the device id that the address is bound to on the node
/// `name`.
pub fn session_lookup(name: &str, remote_address: &str) -> (field: HashField)
    ensures
        field.key@ == address_index_key(name@),
        field.field@ == remote_address@,
{
    HashField { key: address_index(name), field: String::from_str(remote_address) }
}

/// The commands that write the session of a device that has identified
/// itself: the pair goes into both hashes of the node's index.
pub fn bind_commands(node: &str, address: &str, device_id: &str) -> (list: Vec<StoreCommand>)
    ensures
        commands(list@) == bind_list(node@, address@, device_id@),
{
    let mut list: Vec<StoreCommand> = Vec::new();
    list.push(
        StoreCommand::SetHashField {
            key: device_index(node),
            field: String::from_str(device_id),
            value: String::from_str(address),
        },
    );
    list.push(
        StoreCommand::SetHashField {
            key: address_index(node),
            field: String::from_str(address),
            value: String::from_str(device_id),
        },
    );
    proof {
        assert(commands(list@) =~= bind_list(node@, address@, device_id@));
    }
    list
}

/// The commands that clean up the session index after the connection from
/// `remote_address` on the node `name`. `device_id` is what `session_lookup`
/// found: the device bound to the address, or `None`, and then nothing is
/// to be done.
pub fn cleanup_connection(name: &str, remote_address: &str, device_id: Option<&str>) -> (list: Vec<
    StoreCommand,
>)
    ensures
        commands(list@) == cleanup_list(
            name@,
            remote_address@,
            match device_id {
                Some(d) => Some(d@),
                None => None,
            },
        ),
{
    let mut list: Vec<StoreCommand> = Vec::new();
    match device_id {
        Some(device) => {
            list.push(
                StoreCommand::DeleteHashField {
                    key: device_index(name),
                    field: String::from_str(device),
                },
            );
            list.push(
                StoreCommand::DeleteHashField {
                    key: address_index(name),
                    field: String::from_str(remote_address),
                },
            );
            proof {
                assert(commands(list@) =~= cleanup_list(name@, remote_address@, Some(device@)));
            }
        },
        None => {
            proof {
                assert(commands(list@) =~= cleanup_list(name@, remote_address@, None));
            }
        },
    }
    list
}

/// The commands with which a node starts: they clear both hashes of its
/// session index, so that nothing of an earlier run is trusted.
pub fn startup_commands(node: &str) -> (list: Vec<StoreCommand>)
    ensures
        commands(list@) == startup_list(node@),
{
    let mut list: Vec<StoreCommand> = Vec::new();
    list.push(StoreCommand::DeleteHash { key: address_index(node) });
    list.push(StoreCommand::DeleteHash { key: device_index(node) });
    proof {
        assert(commands(list@) =~= startup_list(node@));
    }
    list
}

/// The command that refreshes the liveness record of the connection from
/// `address` after a read at the time `now`.
pub fn refresh_command(address: &str, now: i64) -> (command: StoreCommand)
    ensures
        command@ == (Command::SetString {
            key: liveness_key(address@),
            value: signed_decimal(now as int),
        }),
{
    let mut value = String::new();
    push_signed_decimal(&mut value, now);
    proof {
        assert(value@ =~= signed_decimal(now as int));
    }
    StoreCommand::SetString { key: liveness_record_key(address), value }
}

} // verus!
