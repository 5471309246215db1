//! The liveness sweeper: which connections have gone quiet, and their
//! eviction from the registry.
//!
//! Every read on a connection puts the time of the read into the
//! connection's liveness record in the shared store. The sweeper runs every
//! `SWEEP_INTERVAL_SECS` seconds, reads the record of each registered
//! connection, and evicts those whose record is missing or older than
//! `STALE_THRESHOLD_SECS` seconds.

use vstd::prelude::*;
use crate::numeral::{i64_of_text, lemma_i64_round_trip, parse_i64};
use crate::registry::ConnectionRegistry;
use crate::text::signed_decimal;

verus! {

/// The period of the sweeper, in seconds.
pub const SWEEP_INTERVAL_SECS: u64 = 10;

/// How many seconds a connection may stay quiet before it is stale.
pub const STALE_THRESHOLD_SECS: i64 = 10;

/// What the sweeper found in the shared store for one connection.
#[derive(Debug, Clone, PartialEq, Eq)]
pub struct Observation {
    pub address: String,
    /// The liveness record of the connection, or `None` if it has none.
    pub record: Option<String>,
}

/// A connection that the sweeper took out of the registry.
#[derive(Debug)]
pub struct Eviction<H> {
    pub address: String,
    pub handle: H,
}

/// The text of a liveness record.
pub open spec fn record_text(record: Option<String>) -> Option<Seq<char>> {
    match record {
        Some(text) => Some(text@),
        None => None,
    }
}

/// Whether a connection with this liveness record is stale at `now`.
///
/// A connection without a record has never been active and is stale at
/// once. One whose record cannot be read as a time is left alone: the next
/// read on the connection writes the record anew.
pub open spec fn is_stale(record: Option<Seq<char>>, now: int) -> bool {
    match record {
        None => true,
        Some(text) => match i64_of_text(text) {
            Some(last_active) => now - last_active > STALE_THRESHOLD_SECS,
            None => false,
        },
    }
}

/// Whether observation `i` shows a stale connection.
pub open spec fn shows_stale(observations: Seq<Observation>, i: int, now: int) -> bool {
    0 <= i < observations.len() && is_stale(record_text(observations[i].record), now)
}

/// The addresses that the observations show to be stale at `now`.
pub open spec fn stale_addresses(observations: Seq<Observation>, now: int) -> Set<Seq<char>> {
    Set::new(
        |address: Seq<char>|
            exists|i: int|
                #[trigger] shows_stale(observations, i, now) && observations[i].address@
                    == address,
    )
}

/// The addresses of the stale observations, in the order of the
/// observations.
pub open spec fn stale_list(observations: Seq<Observation>, now: int) -> Seq<Seq<char>>
    decreases observations.len(),
{
    if observations.len() == 0 {
        Seq::empty()
    } else {
        let earlier = stale_list(observations.drop_last(), now);
        if is_stale(record_text(observations.last().record), now) {
            earlier.push(observations.last().address@)
        } else {
            earlier
        }
    }
}

/// The texts of a list of strings.
pub open spec fn texts(list: Seq<String>) -> Seq<Seq<char>> {
    Seq::new(list.len(), |i: int| list[i]@)
}

/// The stale list holds exactly the stale addresses.
pub proof fn lemma_stale_list(observations: Seq<Observation>, now: int)
    ensures
        stale_list(observations, now).to_set() =~= stale_addresses(observations, now),
    decreases observations.len(),
{
    let list = stale_list(observations, now);
    if observations.len() > 0 {
        let earlier = observations.drop_last();
        let last = observations.len() - 1;
        lemma_stale_list(earlier, now);
        assert forall|a: Seq<char>| list.contains(a) implies stale_addresses(
            observations,
            now,
        ).contains(a) by {
            let k = list.index_of(a);
            if k < stale_list(earlier, now).len() {
                assert(stale_list(earlier, now)[k] == a);
                assert(stale_list(earlier, now).to_set().contains(a));
                let i = choose|i: int|
                    #[trigger] shows_stale(earlier, i, now) && earlier[i].address@ == a;
                assert(shows_stale(observations, i, now));
            } else {
                assert(shows_stale(observations, last, now));
            }
        }
        assert forall|a: Seq<char>| stale_addresses(observations, now).contains(a) implies list.contains(
            a,
        ) by {
            let i = choose|i: int|
                #[trigger] shows_stale(observations, i, now) && observations[i].address@ == a;
            if i < last {
                assert(shows_stale(earlier, i, now));
                assert(stale_list(earlier, now).to_set().contains(a));
                let k = stale_list(earlier, now).index_of(a);
                assert(list[k] == a);
            } else {
                assert(list[list.len() - 1] == a);
            }
        }
    } else {
        assert forall|a: Seq<char>| stale_addresses(observations, now).contains(a) implies false by {
            let i = choose|i: int|
                #[trigger] shows_stale(observations, i, now) && observations[i].address@ == a;
        }
    }
}

/// A connection without a liveness record is stale whatever the time: the
/// sweep that observes it evicts it.
pub proof fn lemma_unrecorded_is_stale(observations: Seq<Observation>, i: int, now: int)
    requires
        0 <= i < observations.len(),
        observations[i].record is None,
    ensures
        is_stale(None, now),
        stale_addresses(observations, now).contains(observations[i].address@),
{
    assert(shows_stale(observations, i, now));
}

/// A connection whose record was refreshed at most `STALE_THRESHOLD_SECS`
/// seconds before the sweep, so in particular one that is refreshed every
/// nine seconds or less, is not stale.
pub proof fn lemma_refreshed_is_kept(last_active: i64, now: int)
    requires
        now - last_active <= 9,
    ensures
        !is_stale(Some(signed_decimal(last_active as int)), now),
{
    lemma_i64_round_trip(last_active);
}

/// A connection whose refreshes stop is stale at every sweep later than
/// `STALE_THRESHOLD_SECS` seconds after the last refresh, and with sweeps
/// every `SWEEP_INTERVAL_SECS` seconds from `first_sweep` on, one of them
/// falls within the threshold plus one interval of the last refresh.
pub proof fn lemma_quiet_is_evicted(last_active: i64, first_sweep: int)
    requires
        first_sweep <= last_active + STALE_THRESHOLD_SECS + SWEEP_INTERVAL_SECS,
    ensures
        forall|now: int|
            now > last_active + STALE_THRESHOLD_SECS ==> #[trigger] is_stale(
                Some(signed_decimal(last_active as int)),
                now,
            ),
        exists|k: nat|
            {
                let sweep = #[trigger] sweep_time(first_sweep, k);
                &&& last_active + STALE_THRESHOLD_SECS < sweep
                &&& sweep <= last_active + STALE_THRESHOLD_SECS + SWEEP_INTERVAL_SECS
                &&& is_stale(Some(signed_decimal(last_active as int)), sweep)
            },
{
    lemma_i64_round_trip(last_active);
    let deadline = last_active + STALE_THRESHOLD_SECS;
    let k: nat = if first_sweep > deadline {
        0
    } else {
        ((deadline - first_sweep) / (SWEEP_INTERVAL_SECS as int) + 1) as nat
    };
    let sweep = sweep_time(first_sweep, k);
    assert(deadline < sweep && sweep <= deadline + SWEEP_INTERVAL_SECS);
}

/// When the `k`-th sweep after the first runs.
pub open spec fn sweep_time(first_sweep: int, k: nat) -> int {
    first_sweep + k * SWEEP_INTERVAL_SECS
}

/// Decides whether a connection with this liveness record is stale at
/// `now`.
pub fn connection_is_stale(record: &Option<String>, now: i64) -> (stale: bool)
    ensures
        stale == is_stale(record_text(*record), now as int),
{
    match record {
        None => true,
        Some(text) => match parse_i64(text.as_str()) {
            Some(last_active) => now as i128 - last_active as i128 > STALE_THRESHOLD_SECS as i128,
            None => false,
        },
    }
}

/// Collects the addresses of the connections that the observations show to
/// be stale at `now`, in the order of the observations. Nothing is changed
/// yet.
pub fn stale_connections(observations: &Vec<Observation>, now: i64) -> (stale: Vec<String>)
    ensures
        texts(stale@) == stale_list(observations@, now as int),
{
    let mut stale: Vec<String> = Vec::new();
    let mut i: usize = 0;
    while i < observations.len()
        invariant
            i <= observations.len(),
            texts(stale@) == stale_list(observations@.take(i as int), now as int),
        decreases observations.len() - i,
    {
        let ghost before = stale@;
        proof {
            assert(observations@.take(i + 1).drop_last() =~= observations@.take(i as int));
        }
        if connection_is_stale(&observations[i].record, now) {
            stale.push(observations[i].address.clone());
            proof {
                assert(texts(stale@) =~= texts(before).push(observations@[i as int].address@));
            }
        }
        i += 1;
    }
    proof {
        assert(observations@.take(i as int) =~= observations@);
    }
    stale
}

/// The first `i + 1` items of a list are its first `i` items and item `i`.
proof fn lemma_prefix_set_grows(list: Seq<Seq<char>>, i: int)
    requires
        0 <= i < list.len(),
    ensures
        list.take(i + 1).to_set() =~= list.take(i).to_set().insert(list[i]),
{
    let shorter = list.take(i);
    let longer = list.take(i + 1);
    assert forall|a: Seq<char>| longer.to_set().contains(a) implies shorter.to_set().insert(
        list[i],
    ).contains(a) by {
        let k = longer.index_of(a);
        if k < i {
            assert(shorter[k] == a);
        }
    }
    assert forall|a: Seq<char>| shorter.to_set().insert(list[i]).contains(a) implies longer.to_set().contains(
        a,
    ) by {
        if a == list[i] {
            assert(longer[i] == a);
        } else {
            let k = shorter.index_of(a);
            assert(longer[k] == a);
        }
    }
}

/// Takes the connections from `addresses` out of the registry and returns
/// them. An address that is not registered, or that comes a second time,
/// is passed over.
pub fn evict<H>(registry: &mut ConnectionRegistry<H>, addresses: &Vec<String>) -> (evicted: Vec<
    Eviction<H>,
>)
    ensures
        final(registry)@ == old(registry)@.remove_keys(texts(addresses@).to_set()),
        is_eviction_of(evicted@, old(registry)@, texts(addresses@).to_set()),
{
    let ghost before = registry@;
    let ghost all = texts(addresses@);
    let mut evicted: Vec<Eviction<H>> = Vec::new();
    let mut i: usize = 0;
    proof {
        assert(before =~= before.remove_keys(all.take(0).to_set()));
    }
    while i < addresses.len()
        invariant
            i <= addresses.len(),
            all == texts(addresses@),
            before == old(registry)@,
            registry@ == before.remove_keys(all.take(i as int).to_set()),
            is_eviction_of(evicted@, before, all.take(i as int).to_set()),
        decreases addresses.len() - i,
    {
        let address = &addresses[i];
        let ghost done = all.take(i as int).to_set();
        let ghost gone = done.insert(address@);
        let ghost earlier = evicted@;
        proof {
            lemma_prefix_set_grows(all, i as int);
        }
        match registry.unregister(address.as_str()) {
            Some(handle) => {
                evicted.push(Eviction { address: address.clone(), handle });
                proof {
                    let last = earlier.len() as int;
                    assert(evicted@[last].address@ == address@);
                    assert forall|k: int| 0 <= k < last implies #[trigger] evicted@[k]
                        == earlier[k] by {}
                    assert forall|a: Seq<char>|
                        gone.contains(a) && before.contains_key(a) implies exists|k: int|
                        0 <= k < evicted@.len() && (#[trigger] evicted@[k]).address@ == a by {
                        if a != address@ {
                            let k = choose|k: int|
                                0 <= k < earlier.len() && (#[trigger] earlier[k]).address@ == a;
                            assert(evicted@[k] == earlier[k]);
                        }
                    }
                }
            },
            None => {},
        }
        proof {
            assert(registry@ =~= before.remove_keys(gone));
        }
        i += 1;
    }
    proof {
        assert(all.take(i as int) =~= all);
    }
    evicted
}

/// Whether `evicted` holds, once each, the connections of `before` whose
/// addresses are in `gone`, each with the handle it had.
pub open spec fn is_eviction_of<H>(
    evicted: Seq<Eviction<H>>,
    before: Map<Seq<char>, H>,
    gone: Set<Seq<char>>,
) -> bool {
    &&& forall|k: int|
        0 <= k < evicted.len() ==> {
            &&& gone.contains((#[trigger] evicted[k]).address@)
            &&& before.contains_key(evicted[k].address@)
            &&& evicted[k].handle == before[evicted[k].address@]
        }
    &&& forall|j: int, k: int|
        0 <= j < k < evicted.len() ==> (#[trigger] evicted[j]).address@ != (
        #[trigger] evicted[k]).address@
    &&& forall|address: Seq<char>|
        gone.contains(address) && before.contains_key(address) ==> exists|k: int|
            0 <= k < evicted.len() && (#[trigger] evicted[k]).address@ == address
}

/// One pass of the sweeper: decides from the observations which
/// connections are stale at `now`, then takes those out of the registry and
/// returns them, so that the caller can shut their sockets down and clean
/// up their session-index entries. Connections that are not stale, or that
/// were not observed, stay as they are.
pub fn sweep<H>(registry: &mut ConnectionRegistry<H>, observations: &Vec<Observation>, now: i64) -> (evicted:
    Vec<Eviction<H>>)
    ensures
        final(registry)@ == old(registry)@.remove_keys(stale_addresses(observations@, now as int)),
        is_eviction_of(evicted@, old(registry)@, stale_addresses(observations@, now as int)),
        forall|i: int|
            0 <= i < observations@.len() && (#[trigger] observations@[i]).record is None
                ==> !final(registry)@.contains_key(observations@[i].address@),
{
    let stale = stale_connections(observations, now);
    proof {
        lemma_stale_list(observations@, now as int);
        assert forall|i: int|
            0 <= i < observations@.len() && (#[trigger] observations@[i]).record is None implies stale_addresses(
            observations@,
            now as int,
        ).contains(observations@[i].address@) by {
            lemma_unrecorded_is_stale(observations@, i, now as int);
        }
    }
    evict(registry, &stale)
}

} // verus!
