//! What holds of the store, of the requests and of the server, whatever the
//! values.

use crate::dispatch::{outcome_of, store_after};
use crate::error::{message_of, ErrorView};
use crate::resource::{decoded_list, decoded_resource, encoded_resource, Payload, ResourceView};
use crate::server::{next_phase, ActionView, EventView, Phase, Server};
use crate::store::{append_outcome, distinct_keys, found, remove_outcome};
use crate::wire::{command_named, request_parts, Command};
use vstd::prelude::*;

verus! {

/// Whether `line` is a request for `command` on `key` with `payload`.
pub open spec fn asks(
    line: Seq<char>,
    command: Command,
    key: Seq<char>,
    payload: Seq<char>,
) -> bool {
    match request_parts(line) {
        Some(parts) => command_named(parts.command) == Some(command) && parts.key == key
            && parts.payload == payload,
        None => false,
    }
}

/// Whether `line` is an append or a remove on `key` whose payload decodes.
pub open spec fn asks_for_list_change<T: Payload>(
    line: Seq<char>,
    key: Seq<char>,
    payload: Seq<char>,
) -> bool {
    ||| asks(line, Command::Append, key, payload) && decoded_list::<T>(payload) is Some
    ||| asks(line, Command::Remove, key, payload) && T::decoded(payload) is Some
}

/// Whether `key` holds a list.
pub open spec fn holds_list<V>(store: Map<Seq<char>, ResourceView<V>>, key: Seq<char>) -> bool {
    found(store, key) matches Some(ResourceView::List(_))
}

/// The store after a request.
pub open spec fn store_on<T: Payload>(
    store: Map<Seq<char>, ResourceView<T::V>>,
    line: Seq<char>,
) -> Map<Seq<char>, ResourceView<T::V>> {
    store_after(store, outcome_of::<T>(store, line).effect)
}

/// The store after each pair of `pairs` was created in turn.
pub open spec fn created_all<V>(
    store: Map<Seq<char>, ResourceView<V>>,
    pairs: Seq<(Seq<char>, ResourceView<V>)>,
) -> Map<Seq<char>, ResourceView<V>>
    decreases pairs.len(),
{
    if pairs.len() == 0 {
        store
    } else {
        created_all(store, pairs.drop_last()).insert(pairs.last().0, pairs.last().1)
    }
}

/// What was created under a key is what the key then holds.
pub proof fn law_read_after_create<V>(
    store: Map<Seq<char>, ResourceView<V>>,
    key: Seq<char>,
    resource: ResourceView<V>,
)
    ensures
        found(store.insert(key, resource), key) == Some(resource),
{
}

/// A create request is confirmed, and a read request for its key is then
/// answered with the JSON text of the resource that it held.
pub proof fn law_create_then_read_on_the_wire<T: Payload>(
    store: Map<Seq<char>, ResourceView<T::V>>,
    create: Seq<char>,
    read: Seq<char>,
    key: Seq<char>,
    payload: Seq<char>,
    ignored: Seq<char>,
    resource: ResourceView<T::V>,
)
    requires
        asks(create, Command::Create, key, payload),
        decoded_resource::<T>(payload) == Some(resource),
        asks(read, Command::Read, key, ignored),
    ensures
        outcome_of::<T>(store, create).response == "Created successfully"@,
        found(store_on::<T>(store, create), key) == Some(resource),
        outcome_of::<T>(store_on::<T>(store, create), read).effect is Keep,
        outcome_of::<T>(store_on::<T>(store, create), read).response == match encoded_resource::<T>(
            resource,
        ) {
            Some(text) => text,
            None => "Error"@,
        },
{
}

/// An update puts its resource in place of the one that was created: the key
/// then holds the later one, and the store is as if the earlier one had never
/// been there.
pub proof fn law_update_replaces<V>(
    store: Map<Seq<char>, ResourceView<V>>,
    key: Seq<char>,
    first: ResourceView<V>,
    second: ResourceView<V>,
)
    ensures
        found(store.insert(key, first).insert(key, second), key) == Some(second),
        store.insert(key, first).insert(key, second) == store.insert(key, second),
{
    assert(store.insert(key, first).insert(key, second) =~= store.insert(key, second));
}

/// On the wire, create and update do the same to the store.
pub proof fn law_update_is_create_on_the_wire<T: Payload>(
    store: Map<Seq<char>, ResourceView<T::V>>,
    create: Seq<char>,
    update: Seq<char>,
    key: Seq<char>,
    payload: Seq<char>,
)
    requires
        asks(create, Command::Create, key, payload),
        asks(update, Command::Update, key, payload),
    ensures
        outcome_of::<T>(store, update).effect == outcome_of::<T>(store, create).effect,
        decoded_resource::<T>(payload) is Some ==> outcome_of::<T>(store, update).response
            == "Updated successfully"@,
{
}

/// A deleted key holds nothing, whether or not it held anything before.
pub proof fn law_deleted_key_is_absent<V>(store: Map<Seq<char>, ResourceView<V>>, key: Seq<char>)
    ensures
        found(store.remove(key), key) is None,
        !store.contains_key(key) ==> store.remove(key) == store,
{
    assert(!store.contains_key(key) ==> store.remove(key) =~= store);
}

/// A delete request is confirmed whatever the store holds, and a read
/// request for its key is then answered with "Key not found".
pub proof fn law_delete_then_read_on_the_wire<T: Payload>(
    store: Map<Seq<char>, ResourceView<T::V>>,
    delete: Seq<char>,
    read: Seq<char>,
    key: Seq<char>,
    payload: Seq<char>,
    ignored: Seq<char>,
)
    requires
        asks(delete, Command::Delete, key, payload),
        asks(read, Command::Read, key, ignored),
    ensures
        outcome_of::<T>(store, delete).response == "Deleted successfully"@,
        store_on::<T>(store, delete) == store.remove(key),
        outcome_of::<T>(store_on::<T>(store, delete), read).response == "Key not found"@,
{
}

/// Appending keeps what the list held, in its order, and puts the new items
/// behind it, in their order.
pub proof fn law_append_trails<V>(
    store: Map<Seq<char>, ResourceView<V>>,
    key: Seq<char>,
    stored: Seq<V>,
    items: Seq<V>,
)
    requires
        found(store, key) == Some(ResourceView::List(stored)),
    ensures
        append_outcome(store, key, items) == Ok::<ResourceView<V>, ErrorView>(
            ResourceView::List(stored + items),
        ),
        (stored + items).len() == stored.len() + items.len(),
        forall|i: int| 0 <= i < stored.len() ==> (stored + items)[i] == stored[i],
        forall|i: int| 0 <= i < items.len() ==> (stored + items)[stored.len() + i] == items[i],
{
}

/// Removing an item leaves no element equal to it and keeps every other
/// element of the list.
pub proof fn law_remove_drops_every_match<V>(
    store: Map<Seq<char>, ResourceView<V>>,
    key: Seq<char>,
    stored: Seq<V>,
    item: V,
)
    requires
        found(store, key) == Some(ResourceView::List(stored)),
    ensures
        remove_outcome(store, key, item) == Ok::<ResourceView<V>, ErrorView>(
            ResourceView::List(stored.filter(|v: V| v != item)),
        ),
        !stored.filter(|v: V| v != item).contains(item),
        forall|i: int|
            0 <= i < stored.len() && stored[i] != item ==> stored.filter(|v: V| v != item).contains(
                #[trigger] stored[i],
            ),
        !stored.contains(item) ==> stored.filter(|v: V| v != item) == stored,
{
    let differs = |v: V| v != item;
    let kept = stored.filter(differs);
    broadcast use vstd::seq_lib::group_filter_ensures;
    if kept.contains(item) {
        let i = choose|i: int| 0 <= i < kept.len() && kept[i] == item;
        assert(differs(kept[i]));
    }
    if !stored.contains(item) {
        lemma_filter_keeps_all(stored, differs);
    }
}

/// A filter that every element passes keeps the whole list.
pub proof fn lemma_filter_keeps_all<V>(list: Seq<V>, keep: spec_fn(V) -> bool)
    requires
        forall|i: int| 0 <= i < list.len() ==> keep(list[i]),
    ensures
        list.filter(keep) == list,
    decreases list.len(),
{
    reveal(Seq::filter);
    if list.len() > 0 {
        lemma_filter_keeps_all(list.drop_last(), keep);
        assert(list.drop_last().push(list.last()) =~= list);
    }
}

/// Appending to or removing from a key that holds nothing is refused for
/// want of the key, and from one that holds a single entity for its type.
pub proof fn law_list_operations_want_a_list<V>(
    store: Map<Seq<char>, ResourceView<V>>,
    key: Seq<char>,
    items: Seq<V>,
    item: V,
)
    ensures
        found(store, key) is None ==> {
            &&& append_outcome(store, key, items) == Err::<ResourceView<V>, ErrorView>(
                ErrorView::KeyNotFound(key),
            )
            &&& remove_outcome(store, key, item) == Err::<ResourceView<V>, ErrorView>(
                ErrorView::KeyNotFound(key),
            )
        },
        found(store, key) matches Some(ResourceView::Single(_)) ==> {
            &&& append_outcome(store, key, items) == Err::<ResourceView<V>, ErrorView>(
                ErrorView::InvalidResourceType(key),
            )
            &&& remove_outcome(store, key, item) == Err::<ResourceView<V>, ErrorView>(
                ErrorView::InvalidResourceType(key),
            )
        },
{
}

/// On the wire, an append or a remove that is refused leaves the store as it
/// was and is answered with the reason.
pub proof fn law_refused_list_operation_on_the_wire<T: Payload>(
    store: Map<Seq<char>, ResourceView<T::V>>,
    line: Seq<char>,
    key: Seq<char>,
    payload: Seq<char>,
)
    requires
        !holds_list(store, key),
        asks_for_list_change::<T>(line, key, payload),
    ensures
        store_on::<T>(store, line) == store,
        outcome_of::<T>(store, line).response == "Error: "@ + message_of(
            if found(store, key) is None {
                ErrorView::KeyNotFound(key)
            } else {
                ErrorView::InvalidResourceType(key)
            },
        ),
{
}

/// A line without a space is no request: it is answered with
/// "Invalid command" and leaves the store as it was.
pub proof fn law_line_without_space_is_invalid<T: Payload>(
    store: Map<Seq<char>, ResourceView<T::V>>,
    line: Seq<char>,
)
    requires
        forall|i: int| 0 <= i < line.len() ==> line[i] != ' ',
    ensures
        outcome_of::<T>(store, line).response == "Invalid command"@,
        store_on::<T>(store, line) == store,
{
}

/// A request whose first word names no command is answered with
/// "Unknown command", and one whose payload does not decode with
/// "Invalid data format"; both leave the store as it was.
pub proof fn law_malformed_request_is_refused<T: Payload>(
    store: Map<Seq<char>, ResourceView<T::V>>,
    line: Seq<char>,
)
    requires
        request_parts(line) is Some,
    ensures
        command_named(request_parts(line)->0.command) is None ==> outcome_of::<T>(
            store,
            line,
        ).response == "Unknown command"@ && store_on::<T>(store, line) == store,
        command_named(request_parts(line)->0.command) == Some(Command::Create)
            && decoded_resource::<T>(request_parts(line)->0.payload) is None ==> outcome_of::<T>(
            store,
            line,
        ).response == "Invalid data format"@ && store_on::<T>(store, line) == store,
{
}

/// Creates on keys that differ from one another all take effect, in
/// whatever order they reach the store: afterwards each key holds the
/// resource that was created under it, and a key that none of them names
/// holds what it held before.
pub proof fn law_creates_on_distinct_keys<V>(
    store: Map<Seq<char>, ResourceView<V>>,
    pairs: Seq<(Seq<char>, ResourceView<V>)>,
)
    requires
        distinct_keys(pairs),
    ensures
        forall|i: int|
            0 <= i < pairs.len() ==> found(created_all(store, pairs), (#[trigger] pairs[i]).0)
                == Some(pairs[i].1),
        forall|key: Seq<char>|
            (forall|i: int| 0 <= i < pairs.len() ==> (#[trigger] pairs[i]).0 != key) ==> found(
                created_all(store, pairs),
                key,
            ) == found(store, key),
    decreases pairs.len(),
{
    if pairs.len() > 0 {
        let earlier = pairs.drop_last();
        assert forall|i: int, j: int|
            0 <= i < earlier.len() && 0 <= j < earlier.len() && i != j implies (
        #[trigger] earlier[i]).0 != (#[trigger] earlier[j]).0 by {
            assert(earlier[i] == pairs[i]);
            assert(earlier[j] == pairs[j]);
        }
        law_creates_on_distinct_keys(store, earlier);
        assert forall|i: int| 0 <= i < pairs.len() implies found(
            created_all(store, pairs),
            (#[trigger] pairs[i]).0,
        ) == Some(pairs[i].1) by {
            if i < pairs.len() - 1 {
                assert(earlier[i] == pairs[i]);
                assert(pairs[i].0 != pairs[pairs.len() - 1].0);
            }
        }
        assert forall|key: Seq<char>|
            (forall|i: int| 0 <= i < pairs.len() ==> (#[trigger] pairs[i]).0 != key) implies found(
            created_all(store, pairs),
            key,
        ) == found(store, key) by {
            assert(pairs[pairs.len() - 1].0 != key);
            assert forall|i: int| 0 <= i < earlier.len() implies (#[trigger] earlier[i]).0
                != key by {
                assert(earlier[i] == pairs[i]);
            }
        }
    }
}

/// After a shutdown the server is stopped, and stays so whatever happens.
pub proof fn law_shutdown_is_final(phase: Phase, later: EventView)
    ensures
        next_phase(phase, EventView::Shutdown) == Phase::Stopped,
        next_phase(phase, EventView::Deadline) == Phase::Stopped,
        next_phase(Phase::Stopped, later) == Phase::Stopped,
{
}

/// A stopped server takes no datagram: whatever happens, there is nothing
/// to do and the store stays as it is.
pub proof fn law_stopped_server_is_idle<T: Payload>(server: Server<T>, event: EventView)
    requires
        server.phase() == Phase::Stopped,
    ensures
        server.action_for(event) == ActionView::Idle,
        server.store_for(event) == server.db()@,
{
}

/// Only a running server answers a datagram.
pub proof fn law_only_a_running_server_replies<T: Payload>(server: Server<T>, event: EventView)
    ensures
        server.action_for(event) is Reply <==> server.phase() == Phase::Running
            && event is Datagram,
{
}

/// The store after each request of `lines` in turn.
pub open spec fn store_on_all<T: Payload>(
    store: Map<Seq<char>, ResourceView<T::V>>,
    lines: Seq<Seq<char>>,
) -> Map<Seq<char>, ResourceView<T::V>>
    decreases lines.len(),
{
    if lines.len() == 0 {
        store
    } else {
        store_on::<T>(store_on_all::<T>(store, lines.drop_last()), lines.last())
    }
}

/// Whether each line of `lines` is a create request for the pair at its
/// place in `pairs`.
pub open spec fn create_each<T: Payload>(
    lines: Seq<Seq<char>>,
    payloads: Seq<Seq<char>>,
    pairs: Seq<(Seq<char>, ResourceView<T::V>)>,
) -> bool {
    &&& lines.len() == pairs.len()
    &&& payloads.len() == pairs.len()
    &&& forall|i: int|
        0 <= i < pairs.len() ==> asks(
            #[trigger] lines[i],
            Command::Create,
            pairs[i].0,
            payloads[i],
        ) && decoded_resource::<T>(payloads[i]) == Some(pairs[i].1)
}

/// Create requests on keys that differ from one another, taken in whatever
/// order they come, are each confirmed, and afterwards each key holds the
/// resource of its request: no write is lost.
pub proof fn law_creates_on_distinct_keys_on_the_wire<T: Payload>(
    store: Map<Seq<char>, ResourceView<T::V>>,
    lines: Seq<Seq<char>>,
    payloads: Seq<Seq<char>>,
    pairs: Seq<(Seq<char>, ResourceView<T::V>)>,
)
    requires
        create_each::<T>(lines, payloads, pairs),
        distinct_keys(pairs),
    ensures
        forall|i: int|
            0 <= i < lines.len() ==> outcome_of::<T>(
                store_on_all::<T>(store, lines.take(i)),
                #[trigger] lines[i],
            ).response == "Created successfully"@,
        store_on_all::<T>(store, lines) == created_all(store, pairs),
        forall|i: int|
            0 <= i < pairs.len() ==> found(
                store_on_all::<T>(store, lines),
                (#[trigger] pairs[i]).0,
            ) == Some(pairs[i].1),
{
    lemma_creates_fold::<T>(store, lines, payloads, pairs);
    law_creates_on_distinct_keys(store, pairs);
}

/// Create requests do to the store, one after the other, what setting their
/// pairs does.
pub proof fn lemma_creates_fold<T: Payload>(
    store: Map<Seq<char>, ResourceView<T::V>>,
    lines: Seq<Seq<char>>,
    payloads: Seq<Seq<char>>,
    pairs: Seq<(Seq<char>, ResourceView<T::V>)>,
)
    requires
        create_each::<T>(lines, payloads, pairs),
    ensures
        store_on_all::<T>(store, lines) == created_all(store, pairs),
    decreases lines.len(),
{
    if lines.len() > 0 {
        let last = lines.len() - 1;
        assert(lines.last() == lines[last]);
        assert forall|i: int| 0 <= i < last implies asks(
            #[trigger] lines.drop_last()[i],
            Command::Create,
            pairs.drop_last()[i].0,
            payloads.drop_last()[i],
        ) && decoded_resource::<T>(payloads.drop_last()[i]) == Some(pairs.drop_last()[i].1) by {
            assert(lines.drop_last()[i] == lines[i]);
        }
        lemma_creates_fold::<T>(store, lines.drop_last(), payloads.drop_last(), pairs.drop_last());
    }
}

/// The phase after each event of `events` in turn.
pub open spec fn phase_after(phase: Phase, events: Seq<EventView>) -> Phase
    decreases events.len(),
{
    if events.len() == 0 {
        phase
    } else {
        next_phase(phase_after(phase, events.drop_last()), events.last())
    }
}

/// Once a shutdown was taken, the server is stopped after any run of events:
/// it never runs again.
pub proof fn law_no_restart_after_shutdown(phase: Phase, later: Seq<EventView>)
    ensures
        phase_after(next_phase(phase, EventView::Shutdown), later) == Phase::Stopped,
    decreases later.len(),
{
    if later.len() > 0 {
        law_no_restart_after_shutdown(phase, later.drop_last());
    }
}

/// Taking a shutdown twice is the same as taking it once.
pub proof fn law_shutdown_is_idempotent(phase: Phase)
    ensures
        next_phase(next_phase(phase, EventView::Shutdown), EventView::Shutdown) == next_phase(
            phase,
            EventView::Shutdown,
        ),
{
}

} // verus!
