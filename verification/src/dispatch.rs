//! The answering of a request: what it does to the store and what is sent
//! back.

use crate::error::{message_of, DatabaseError, ErrorView};
use crate::resource::{
    decode_list, decode_resource, decoded_list, decoded_resource, encode_resource,
    encoded_resource, Payload, ResourceView,
};
use crate::store::{append_outcome, found, put, remove_outcome, without, Database};
use crate::wire::{command_named, command_of, parse_request, request_parts, Command};
use vstd::prelude::*;
use vstd::string::*;

verus! {

/// What a request does to the store.
pub ghost enum Effect<V> {
    /// Nothing.
    Keep,
    /// It sets a key to a resource.
    Put(Seq<char>, ResourceView<V>),
    /// It drops a key.
    Drop(Seq<char>),
}

/// What becomes of a request: its effect on the store and the response.
pub ghost struct Outcome<V> {
    pub effect: Effect<V>,
    pub response: Seq<char>,
}

/// A response that leaves the store as it is.
pub open spec fn answer<V>(response: Seq<char>) -> Outcome<V> {
    Outcome { effect: Effect::Keep, response }
}

/// The response to a store operation that failed with `error`.
pub open spec fn failure<V>(error: ErrorView) -> Outcome<V> {
    answer("Error: "@ + message_of(error))
}

/// The outcome of a request on a store.
pub open spec fn outcome_of<T: Payload>(
    store: Map<Seq<char>, ResourceView<T::V>>,
    request: Seq<char>,
) -> Outcome<T::V> {
    match request_parts(request) {
        None => answer("Invalid command"@),
        Some(parts) => match command_named(parts.command) {
            None => answer("Unknown command"@),
            Some(Command::Create) => match decoded_resource::<T>(parts.payload) {
                Some(resource) => Outcome {
                    effect: Effect::Put(parts.key, resource),
                    response: "Created successfully"@,
                },
                None => answer("Invalid data format"@),
            },
            Some(Command::Read) => match found(store, parts.key) {
                Some(resource) => match encoded_resource::<T>(resource) {
                    Some(text) => answer(text),
                    None => answer("Error"@),
                },
                None => answer("Key not found"@),
            },
            Some(Command::Update) => match decoded_resource::<T>(parts.payload) {
                Some(resource) => Outcome {
                    effect: Effect::Put(parts.key, resource),
                    response: "Updated successfully"@,
                },
                None => answer("Invalid data format"@),
            },
            Some(Command::Delete) => Outcome {
                effect: Effect::Drop(parts.key),
                response: "Deleted successfully"@,
            },
            Some(Command::Append) => match decoded_list::<T>(parts.payload) {
                Some(items) => match append_outcome(store, parts.key, items) {
                    Ok(longer) => Outcome {
                        effect: Effect::Put(parts.key, longer),
                        response: "Appended successfully"@,
                    },
                    Err(error) => failure(error),
                },
                None => answer("Invalid data format"@),
            },
            Some(Command::Remove) => match T::decoded(parts.payload) {
                Some(item) => match remove_outcome(store, parts.key, item) {
                    Ok(shorter) => Outcome {
                        effect: Effect::Put(parts.key, shorter),
                        response: "Removed successfully"@,
                    },
                    Err(error) => failure(error),
                },
                None => answer("Invalid data format"@),
            },
        },
    }
}

/// The mapping after an effect.
pub open spec fn store_after<V>(
    store: Map<Seq<char>, ResourceView<V>>,
    effect: Effect<V>,
) -> Map<Seq<char>, ResourceView<V>> {
    match effect {
        Effect::Keep => store,
        Effect::Put(key, resource) => store.insert(key, resource),
        Effect::Drop(key) => store.remove(key),
    }
}

/// The entries after an effect.
pub open spec fn entries_after<V>(
    entries: Seq<(Seq<char>, ResourceView<V>)>,
    effect: Effect<V>,
) -> Seq<(Seq<char>, ResourceView<V>)> {
    match effect {
        Effect::Keep => entries,
        Effect::Put(key, resource) => put(entries, key, resource),
        Effect::Drop(key) => without(entries, key),
    }
}

/// The response to a request whose store operation could not be carried out
/// and failed with `error`: a read is answered with a bare "Error", a
/// request that changes the store with the error's message. A request that
/// never reaches the store is answered as ever.
pub open spec fn failure_text<T: Payload>(request: Seq<char>, error: ErrorView) -> Seq<char> {
    match request_parts(request) {
        None => "Invalid command"@,
        Some(parts) => match command_named(parts.command) {
            None => "Unknown command"@,
            Some(Command::Create) | Some(Command::Update) => match decoded_resource::<T>(
                parts.payload,
            ) {
                Some(_) => "Error: "@ + message_of(error),
                None => "Invalid data format"@,
            },
            Some(Command::Read) => "Error"@,
            Some(Command::Delete) => "Error: "@ + message_of(error),
            Some(Command::Append) => match decoded_list::<T>(parts.payload) {
                Some(_) => "Error: "@ + message_of(error),
                None => "Invalid data format"@,
            },
            Some(Command::Remove) => match T::decoded(parts.payload) {
                Some(_) => "Error: "@ + message_of(error),
                None => "Invalid data format"@,
            },
        },
    }
}

fn error_response(error: &DatabaseError) -> (r: String)
    ensures
        r@ == "Error: "@ + message_of(error@),
{
    String::from_str("Error: ").concat(error.message().as_str())
}

/// Carries out one request on the store and gives the response.
pub fn handle_request<T: Payload>(db: &mut Database<T>, request: &str) -> (response: String)
    requires
        old(db).wf(),
    ensures
        final(db).wf(),
        final(db).path() == old(db).path(),
        response@ == outcome_of::<T>(old(db)@, request@).response,
        final(db)@ == store_after(old(db)@, outcome_of::<T>(old(db)@, request@).effect),
        final(db).entries() == entries_after(
            old(db).entries(),
            outcome_of::<T>(old(db)@, request@).effect,
        ),
        final(db).owes_save() == if outcome_of::<T>(old(db)@, request@).effect is Keep {
            old(db).owes_save()
        } else {
            old(db).persistent()
        },
{
    let parts = match parse_request(request) {
        Some(parts) => parts,
        None => {
            return String::from_str("Invalid command");
        },
    };
    let command = match command_of(parts.command.as_str()) {
        Some(command) => command,
        None => {
            return String::from_str("Unknown command");
        },
    };
    match command {
        Command::Create => match decode_resource::<T>(parts.payload.as_str()) {
            Some(resource) => {
                db.create(parts.key, resource);
                String::from_str("Created successfully")
            },
            None => String::from_str("Invalid data format"),
        },
        Command::Read => match db.read(parts.key.as_str()) {
            Some(resource) => match encode_resource::<T>(&resource) {
                Some(text) => text,
                None => String::from_str("Error"),
            },
            None => String::from_str("Key not found"),
        },
        Command::Update => match decode_resource::<T>(parts.payload.as_str()) {
            Some(resource) => {
                db.update(parts.key, resource);
                String::from_str("Updated successfully")
            },
            None => String::from_str("Invalid data format"),
        },
        Command::Delete => {
            db.delete(parts.key.as_str());
            String::from_str("Deleted successfully")
        },
        Command::Append => match decode_list::<T>(parts.payload.as_str()) {
            Some(items) => match db.append_to_list(parts.key.as_str(), items) {
                Ok(_) => String::from_str("Appended successfully"),
                Err(error) => error_response(&error),
            },
            None => String::from_str("Invalid data format"),
        },
        Command::Remove => match T::decode(parts.payload.as_str()) {
            Some(item) => match db.remove_from_list(parts.key.as_str(), item) {
                Ok(_) => String::from_str("Removed successfully"),
                Err(error) => error_response(&error),
            },
            None => String::from_str("Invalid data format"),
        },
    }
}

/// The response to `request` when its store operation could not be carried
/// out and failed with `error`: the lock was unusable, or the store could not
/// be written out.
pub fn failure_response<T: Payload>(request: &str, error: &DatabaseError) -> (response: String)
    ensures
        response@ == failure_text::<T>(request@, error@),
{
    let parts = match parse_request(request) {
        Some(parts) => parts,
        None => {
            return String::from_str("Invalid command");
        },
    };
    let command = match command_of(parts.command.as_str()) {
        Some(command) => command,
        None => {
            return String::from_str("Unknown command");
        },
    };
    let decodes = match command {
        Command::Create | Command::Update => decode_resource::<T>(parts.payload.as_str()).is_some(),
        Command::Read => {
            return String::from_str("Error");
        },
        Command::Delete => true,
        Command::Append => decode_list::<T>(parts.payload.as_str()).is_some(),
        Command::Remove => T::decode(parts.payload.as_str()).is_some(),
    };
    if decodes {
        error_response(error)
    } else {
        String::from_str("Invalid data format")
    }
}

} // verus!
