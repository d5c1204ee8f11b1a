//! What holds of the system as a whole.
//!
//! Each lemma here relates several operations of the facade, over the
//! same views and functions that the contracts of those operations use.

use vstd::prelude::*;
use vstd::seq_lib::group_filter_ensures;
use crate::firewall::{
    lemma_remove_inbound_rules,
    lemma_set_inbound_rules,
    Rule,
    RuleDirection,
};
use crate::codec::{decoded_entries, entries_of_frames, Encodable};
use crate::interface::{is_snapshot_of, Error};
use crate::network::{ShRequest, ShResultView};
use crate::primitives::{opened, KEY_SIZE};
use crate::registry::RegistryView;
use crate::secure::{
    decoded_state,
    ClientView,
    ProcError,
    ProcResultView,
    Procedure,
    VaultDoesNotExist,
    VaultError,
};
use crate::snapshot::{ReadSnapshotError, HEADER_SIZE, MAGIC, SEAL_SIZE, VERSION};
use crate::vault::{Record, Vault, VaultView};

verus! {

/// Filtering a list without duplicates leaves no duplicates.
proof fn lemma_filter_keeps_distinct(list: Seq<Seq<u8>>, keep: spec_fn(Seq<u8>) -> bool)
    requires
        list.no_duplicates(),
    ensures
        list.filter(keep).no_duplicates(),
    decreases list.len(),
{
    broadcast use group_filter_ensures;

    if list.len() > 0 {
        let front = list.drop_last();
        lemma_filter_keeps_distinct(front, keep);
        front.lemma_filter_push(list.last(), keep);
        assert(list =~= front.push(list.last()));
        if keep(list.last()) {
            let kept = front.filter(keep);
            assert(!kept.contains(list.last())) by {
                if kept.contains(list.last()) {
                    front.lemma_filter_contains_rev(keep, list.last());
                    assert(front.contains(list.last()));
                    let i = choose|i: int| 0 <= i < front.len() && front[i] == list.last();
                    assert(list[i] == list[list.len() - 1]);
                }
            }
            assert forall|i: int, j: int|
                0 <= i < kept.len() + 1 && 0 <= j < kept.len() + 1 && i != j implies kept.push(
                list.last(),
            )[i] != kept.push(list.last())[j] by {
                if i < kept.len() {
                    assert(kept.contains(kept[i]));
                }
                if j < kept.len() {
                    assert(kept.contains(kept[j]));
                }
            }
        }
    }
}

/// A valid vault stays valid when a record is written or revoked and
/// when it is garbage collected; the empty vault is valid.
pub proof fn lemma_vault_stays_valid(
    vault: VaultView,
    path: Seq<u8>,
    id: Seq<u8>,
    payload: Seq<u8>,
    hint: Seq<u8>,
)
    requires
        vault.valid(),
    ensures
        VaultView::empty().valid(),
        vault.write(path, id, payload, hint).valid(),
        vault.revoke(path).valid(),
        vault.collect().valid(),
{
    broadcast use group_filter_ensures;

    let written = vault.write(path, id, payload, hint);
    assert(written.valid()) by {
        if !vault.is_stored(path) {
            assert(!vault.order.contains(path));
            assert forall|i: int, j: int|
                0 <= i < written.order.len() && 0 <= j < written.order.len() && i != j implies written.order[i]
                != written.order[j] by {
                if i < vault.order.len() {
                    assert(vault.order.contains(written.order[i]));
                }
                if j < vault.order.len() {
                    assert(vault.order.contains(written.order[j]));
                }
            }
            assert forall|p: Seq<u8>| written.order.contains(p) <==> #[trigger] written.records.contains_key(
                p,
            ) by {
                if written.order.contains(p) {
                    let i = choose|i: int| 0 <= i < written.order.len() && written.order[i] == p;
                    if i < vault.order.len() {
                        assert(vault.order.contains(p));
                    }
                }
                if written.records.contains_key(p) {
                    if p == path {
                        assert(written.order[vault.order.len() as int] == p);
                    } else {
                        assert(vault.order.contains(p));
                        let i = choose|i: int| 0 <= i < vault.order.len() && vault.order[i] == p;
                        assert(written.order[i] == p);
                    }
                }
            }
        }
    }
    let collected = vault.collect();
    let live = |p: Seq<u8>| vault.is_live(p);
    assert(collected.valid()) by {
        lemma_filter_keeps_distinct(vault.order, live);
        assert forall|p: Seq<u8>| collected.order.contains(p) <==> #[trigger] collected.records.contains_key(
            p,
        ) by {
            if collected.records.contains_key(p) {
                assert(vault.order.contains(p));
                assert(live(p));
            }
        }
    }
}

/// The entries that frames list have each key once, in the order of
/// the frames.
proof fn lemma_listed_entries_are_distinct<V: Encodable>(frames: Seq<Seq<u8>>)
    requires
        entries_of_frames::<V>(frames) is Some,
    ensures
        ({
            let (map, order) = entries_of_frames::<V>(frames)->0;
            &&& order.no_duplicates()
            &&& forall|key: Seq<u8>| order.contains(key) <==> #[trigger] map.contains_key(key)
        }),
    decreases frames.len(),
{
    if frames.len() >= 2 {
        let front = frames.take(frames.len() - 2);
        lemma_listed_entries_are_distinct::<V>(front);
        let (map, order) = entries_of_frames::<V>(front)->0;
        let key = frames[frames.len() - 2];
        let (all, listed) = entries_of_frames::<V>(frames)->0;
        assert(listed == order.push(key));
        assert(!order.contains(key));
        assert forall|i: int, j: int|
            0 <= i < listed.len() && 0 <= j < listed.len() && i != j implies listed[i]
            != listed[j] by {
            if i < order.len() {
                assert(order.contains(listed[i]));
            }
            if j < order.len() {
                assert(order.contains(listed[j]));
            }
        }
        assert forall|k: Seq<u8>| listed.contains(k) <==> #[trigger] all.contains_key(k) by {
            if listed.contains(k) {
                let i = choose|i: int| 0 <= i < listed.len() && listed[i] == k;
                if i < order.len() {
                    assert(order.contains(k));
                }
            }
            if all.contains_key(k) {
                if k == key {
                    assert(listed[order.len() as int] == k);
                } else {
                    assert(order.contains(k));
                    let i = choose|i: int| 0 <= i < order.len() && order[i] == k;
                    assert(listed[i] == k);
                }
            }
        }
    }
}

/// The map of the entries that frames list.
spec fn listed_map<V: Encodable>(frames: Seq<Seq<u8>>) -> Map<Seq<u8>, V::V> {
    let (map, _) = entries_of_frames::<V>(frames)->0;
    map
}

/// The vaults that the bytes of a client's state stand for.
pub open spec fn decoded_vaults(data: Seq<u8>) -> Map<Seq<u8>, VaultView> {
    let (vaults, _) = decoded_state(data)->0;
    vaults
}

/// Every value among the entries that frames list is what one of the
/// frames stands for.
proof fn lemma_listed_values_are_decoded<V: Encodable>(frames: Seq<Seq<u8>>, key: Seq<u8>)
    requires
        entries_of_frames::<V>(frames) is Some,
        listed_map::<V>(frames).contains_key(key),
    ensures
        exists|bytes: Seq<u8>| #[trigger] V::decoded(bytes) == Some(listed_map::<V>(frames)[key]),
    decreases frames.len(),
{
    if frames.len() >= 2 {
        if key == frames[frames.len() - 2] {
            let bytes = frames[frames.len() - 1];
            assert(V::decoded(bytes) == Some(listed_map::<V>(frames)[key]));
        } else {
            lemma_listed_values_are_decoded::<V>(frames.take(frames.len() - 2), key);
        }
    }
}

/// Whether every vault of the client is valid.
pub open spec fn client_is_valid(client: ClientView) -> bool {
    forall|vault_path: Seq<u8>| #[trigger]
        client.vaults.contains_key(vault_path) ==> client.vaults[vault_path].valid()
}

/// Whether every vault of every client of the system is valid. This
/// holds of every system that the facade builds.
pub open spec fn system_is_valid(system: RegistryView) -> bool {
    forall|id: Seq<u8>| #[trigger]
        system.clients.contains_key(id) ==> client_is_valid(system.clients[id])
}

/// The vaults that bytes stand for are valid.
pub proof fn lemma_decoded_state_is_valid(data: Seq<u8>)
    requires
        decoded_state(data) is Some,
    ensures
        forall|vault_path: Seq<u8>| #[trigger]
            decoded_vaults(data).contains_key(vault_path) ==> decoded_vaults(data)[vault_path].valid(),
{
    let vaults = decoded_vaults(data);
    assert forall|vault_path: Seq<u8>| #[trigger] vaults.contains_key(vault_path) implies vaults[vault_path].valid() by {
        let frames = crate::codec::parse_frames(data)->0;
        let listed = crate::codec::parse_frames(frames[0])->0;
        assert(decoded_entries::<Vault>(frames[0]) == entries_of_frames::<Vault>(listed));
        lemma_listed_values_are_decoded::<Vault>(listed, vault_path);
        let bytes = choose|bytes: Seq<u8>| #[trigger]
            Vault::decoded(bytes) == Some(vaults[vault_path]);
        let records = crate::codec::parse_frames(bytes)->0;
        assert(decoded_entries::<Record>(bytes) == entries_of_frames::<Record>(records));
        lemma_listed_entries_are_distinct::<Record>(records);
    }
}

/// A valid client stays valid through every operation on it.
pub proof fn lemma_client_stays_valid(
    client: ClientView,
    vault_path: Seq<u8>,
    record_path: Seq<u8>,
    payload: Seq<u8>,
    hint: Seq<u8>,
    data: Seq<u8>,
    id: Seq<u8>,
)
    requires
        client_is_valid(client),
    ensures
        client_is_valid(ClientView::empty(id)),
        client_is_valid(client.create_vault(vault_path)),
        client_is_valid(client.write_vault(vault_path, record_path, payload, hint).0),
        client_is_valid(client.revoke(vault_path, record_path).0),
        client_is_valid(client.garbage_collect(vault_path).0),
        client_is_valid(client.clear_cache()),
        client_is_valid(client.reload(data, id)),
{
    if client.vault_exists(vault_path) {
        lemma_vault_stays_valid(
            client.vaults[vault_path],
            record_path,
            crate::identity::record_id_of(client.id, vault_path, record_path),
            payload,
            hint,
        );
    }
    lemma_vault_stays_valid(VaultView::empty(), record_path, id, payload, hint);
    if decoded_state(data) is Some {
        lemma_decoded_state_is_valid(data);
        assert(client.reload(data, id).vaults == decoded_vaults(data));
    }
}

/// A valid system stays valid through every call of the facade that
/// changes a client.
pub proof fn lemma_system_stays_valid(
    system: RegistryView,
    id: Seq<u8>,
    former: Option<Seq<u8>>,
    vault_path: Seq<u8>,
    record_path: Seq<u8>,
    payload: Seq<u8>,
    hint: Seq<u8>,
    should_gc: bool,
    kill_actor: bool,
    key: Seq<u8>,
    file: Seq<u8>,
    lifetime: Option<u64>,
    now: u64,
    rule: Rule,
    peers: Seq<Seq<u8>>,
    set_default: bool,
)
    requires
        system_is_valid(system),
    ensures
        system_is_valid(RegistryView::empty()),
        system_is_valid(system.spawn_actor(id)),
        system_is_valid(system.switch_target(id)),
        system_is_valid(system.write_to_vault(vault_path, record_path, payload, hint).0),
        system_is_valid(system.delete_data(vault_path, record_path, should_gc).0),
        system_is_valid(system.garbage_collect(vault_path).0),
        system_is_valid(system.kill(id, kill_actor).0),
        system_is_valid(system.read_snapshot(id, former, key, file).0),
        system_is_valid(system.write_to_store(record_path, payload, lifetime, now).0),
        system_is_valid(system.delete_from_store(record_path).0),
        system_is_valid(system.spawn_p2p(rule)),
        system_is_valid(system.stop_p2p()),
        system_is_valid(system.set_firewall_rule(rule, peers, set_default).0),
        system_is_valid(system.remove_firewall_rules(peers).0),
{
    if system.has_current() {
        let current = system.current();
        lemma_client_stays_valid(current, vault_path, record_path, payload, hint, payload, id);
        lemma_client_stays_valid(
            current.create_vault(vault_path),
            vault_path,
            record_path,
            payload,
            hint,
            payload,
            id,
        );
        lemma_client_stays_valid(
            current.revoke(vault_path, record_path).0,
            vault_path,
            record_path,
            payload,
            hint,
            payload,
            id,
        );
    }
    if system.is_spawned(id) {
        lemma_client_stays_valid(
            system.clients[id],
            vault_path,
            record_path,
            payload,
            hint,
            payload,
            id,
        );
    }
    lemma_client_stays_valid(ClientView::empty(id), vault_path, record_path, payload, hint, payload, id);
    if system.has_snapshot_worker(former) {
        let resolved = system.resolve(former);
        match crate::snapshot::snapshot_content(file, key) {
            Ok(states) => {
                if states.contains_key(id) {
                    lemma_client_stays_valid(
                        resolved.current(),
                        vault_path,
                        record_path,
                        payload,
                        hint,
                        states[id],
                        id,
                    );
                }
            },
            Err(_) => {},
        }
    }
}

/// A valid system stays valid whatever a procedure does, and whatever
/// comes of a request of a peer.
pub proof fn lemma_system_stays_valid_when_served(
    system: RegistryView,
    procedure: Procedure,
    result: Result<ProcResultView, Error>,
    peer: Seq<u8>,
    request: ShRequest,
    approved: bool,
    now: u64,
    answer: Result<ShResultView, Error>,
    after: RegistryView,
)
    requires
        system_is_valid(system),
        system.executes(procedure, after, result) || system.handles(
            peer,
            request,
            approved,
            now,
            after,
            answer,
        ),
    ensures
        system_is_valid(after),
{
    if system.has_current() {
        let current = system.current();
        assert forall|client: ClientView, outcome: Result<ProcResultView, ProcError>, called: Procedure| #[trigger]
            current.runs(called, client, outcome) implies client_is_valid(client) by {
            match called {
                Procedure::Generate { output, hint, size_bytes } => {
                    if client != current {
                        let secret = choose|secret: Seq<u8>|
                            secret.len() == size_bytes && #[trigger] current.store_generated(
                                output.vault(),
                                output.record(),
                                hint@,
                                secret,
                            ) == (client, outcome);
                        lemma_client_stays_valid(
                            current,
                            output.vault(),
                            output.record(),
                            secret,
                            hint@,
                            secret,
                            secret,
                        );
                        lemma_client_stays_valid(
                            current.create_vault(output.vault()),
                            output.vault(),
                            output.record(),
                            secret,
                            hint@,
                            secret,
                            secret,
                        );
                    }
                },
                Procedure::Hmac { .. } => {},
            }
        }
        if system.executes(procedure, after, result) {
        } else if system.network is Some && system.admits(peer, request, approved) {
            let served = answer->Ok_0;
            let client = choose|client: ClientView| #[trigger]
                current.answers(request, now, client, served) && after == system.with_current(client);
            match request {
                ShRequest::CreateVault { location } => {
                    lemma_client_stays_valid(
                        current,
                        location.vault(),
                        location.record(),
                        peer,
                        peer,
                        peer,
                        peer,
                    );
                },
                ShRequest::WriteToRemoteVault { location, payload, hint } => {
                    lemma_client_stays_valid(
                        current,
                        location.vault(),
                        location.record(),
                        payload@,
                        hint@,
                        peer,
                        peer,
                    );
                },
                _ => {},
            }
            assert(client_is_valid(client));
        }
    }
}

/// A write through the facade succeeds exactly where there is a target
/// whose record at the location is not revoked, and what was written
/// can then be read back exactly.
pub proof fn lemma_write_then_read(
    system: RegistryView,
    vault_path: Seq<u8>,
    record_path: Seq<u8>,
    payload: Seq<u8>,
    hint: Seq<u8>,
)
    ensures
        ({
            let (after, done) = system.write_to_vault(vault_path, record_path, payload, hint);
            &&& done is Ok <==> system.has_current() && !(system.current().vault_exists(vault_path)
                && system.current().vaults[vault_path].is_revoked(record_path))
            &&& done is Ok ==> {
                &&& after.read_secret(vault_path, record_path) == Ok::<_, Error>(Some(payload))
                &&& after.record_exists(vault_path, record_path) == Ok::<_, Error>(true)
                &&& after.vault_exists(vault_path) == Ok::<_, Error>(true)
            }
        }),
{
}

/// No write through the facade fails for want of a vault: the vault is
/// created on the way, and is there afterwards whether or not the
/// record could be written.
pub proof fn lemma_write_creates_vault(
    system: RegistryView,
    vault_path: Seq<u8>,
    record_path: Seq<u8>,
    payload: Seq<u8>,
    hint: Seq<u8>,
)
    requires
        system.has_current(),
    ensures
        ({
            let (after, done) = system.write_to_vault(vault_path, record_path, payload, hint);
            &&& done != Err::<(), _>(Error::Inner(VaultError::VaultNotFound))
            &&& after.vault_exists(vault_path) == Ok::<_, Error>(true)
        }),
{
}

/// Creating a vault is idempotent, and creating a vault that exists
/// changes nothing: a creation that comes late loses no record.
pub proof fn lemma_create_vault_is_idempotent(client: ClientView, vault_path: Seq<u8>)
    ensures
        client.create_vault(vault_path).create_vault(vault_path) == client.create_vault(vault_path),
        client.vault_exists(vault_path) ==> client.create_vault(vault_path) == client,
        client.create_vault(vault_path).vault_exists(vault_path),
        forall|other: Seq<u8>| #[trigger]
            client.vault_exists(other) ==> client.create_vault(vault_path).vaults[other]
                == client.vaults[other],
{
}

/// One step of a writer that writes a record to a vault in three
/// separate calls: it asks whether the vault exists, has it created if
/// it does not, and writes.
pub enum WriterStep {
    Check,
    Create,
    Write { record_path: Seq<u8>, payload: Seq<u8>, hint: Seq<u8> },
}

/// The client after one step of a writer on the vault at `vault_path`.
pub open spec fn after_step(client: ClientView, vault_path: Seq<u8>, step: WriterStep) -> ClientView {
    match step {
        WriterStep::Check => client,
        WriterStep::Create => client.create_vault(vault_path),
        WriterStep::Write { record_path, payload, hint } => client.write_vault(
            vault_path,
            record_path,
            payload,
            hint,
        ).0,
    }
}

/// The client after the first `count` of `steps`, which may be the steps
/// of any number of writers in any interleaving.
pub open spec fn after_steps(
    client: ClientView,
    vault_path: Seq<u8>,
    steps: Seq<WriterStep>,
    count: int,
) -> ClientView
    decreases count,
{
    if count <= 0 {
        client
    } else {
        after_step(after_steps(client, vault_path, steps, count - 1), vault_path, steps[count - 1])
    }
}

/// Whether every write among `steps` comes after a creation, or after
/// the vault was there from the start: what holds of writers that each
/// write only once they have seen the vault or asked for it.
pub open spec fn writers_create_first(
    client: ClientView,
    vault_path: Seq<u8>,
    steps: Seq<WriterStep>,
) -> bool {
    forall|i: int|
        0 <= i < steps.len() && #[trigger] steps[i] is Write ==> client.vault_exists(vault_path)
            || exists|j: int| 0 <= j < i && #[trigger] steps[j] is Create
}

/// Whether `steps[at]` is the last write to `record_path` among `steps`,
/// and writes `payload`.
pub open spec fn is_last_write(
    steps: Seq<WriterStep>,
    at: int,
    record_path: Seq<u8>,
    payload: Seq<u8>,
) -> bool {
    &&& 0 <= at < steps.len()
    &&& steps[at] matches WriterStep::Write { record_path: r, payload: p, .. }
    &&& r == record_path
    &&& p == payload
    &&& forall|j: int|
        at < j < steps.len() ==> !(#[trigger] steps[j] matches WriterStep::Write {
            record_path: r,
            ..
        } && r == record_path)
}

/// A vault is never lost to the steps of writers: once there, it stays.
pub proof fn lemma_vault_stays(
    client: ClientView,
    vault_path: Seq<u8>,
    steps: Seq<WriterStep>,
    from: int,
    to: int,
)
    requires
        0 <= from <= to <= steps.len(),
        after_steps(client, vault_path, steps, from).vault_exists(vault_path),
    ensures
        after_steps(client, vault_path, steps, to).vault_exists(vault_path),
    decreases to - from,
{
    if from < to {
        lemma_vault_stays(client, vault_path, steps, from, to - 1);
    }
}

/// Writers do not revoke: a record is revoked after their steps
/// exactly where it was revoked before.
pub proof fn lemma_writers_do_not_revoke(
    client: ClientView,
    vault_path: Seq<u8>,
    steps: Seq<WriterStep>,
    count: int,
    record_path: Seq<u8>,
)
    requires
        0 <= count <= steps.len(),
    ensures
        ({
            let after = after_steps(client, vault_path, steps, count);
            (after.vault_exists(vault_path) && after.vaults[vault_path].is_revoked(record_path))
                <==> (client.vault_exists(vault_path) && client.vaults[vault_path].is_revoked(
                record_path,
            ))
        }),
    decreases count,
{
    if count > 0 {
        lemma_writers_do_not_revoke(client, vault_path, steps, count - 1, record_path);
    }
}

/// A payload that was written stays readable through every later step
/// that does not write to the same record.
proof fn lemma_written_stays(
    client: ClientView,
    vault_path: Seq<u8>,
    steps: Seq<WriterStep>,
    at: int,
    to: int,
    record_path: Seq<u8>,
    payload: Seq<u8>,
)
    requires
        is_last_write(steps, at, record_path, payload),
        at < to <= steps.len(),
        after_steps(client, vault_path, steps, at + 1).read_secret(vault_path, record_path) == Some(
            payload,
        ),
    ensures
        after_steps(client, vault_path, steps, to).read_secret(vault_path, record_path) == Some(
            payload,
        ),
    decreases to - at,
{
    if at + 1 < to {
        lemma_written_stays(client, vault_path, steps, at, to - 1, record_path, payload);
        assert(!(steps[to - 1] matches WriterStep::Write { record_path: r, .. } && r
            == record_path));
    }
}

/// However the steps of any number of writers interleave, as long as
/// each writer writes only once the vault was seen or asked for: no
/// write fails for want of the vault, the vault is there after the
/// first creation and from then on, and what was written last to a
/// record that was not revoked is what the record holds in the end.
pub proof fn lemma_interleaved_writers(
    client: ClientView,
    vault_path: Seq<u8>,
    steps: Seq<WriterStep>,
    at: int,
    record_path: Seq<u8>,
    payload: Seq<u8>,
)
    requires
        writers_create_first(client, vault_path, steps),
        is_last_write(steps, at, record_path, payload),
        !(client.vault_exists(vault_path) && client.vaults[vault_path].is_revoked(record_path)),
    ensures
        after_steps(client, vault_path, steps, at).vault_exists(vault_path),
        after_steps(client, vault_path, steps, at).write_vault(
            vault_path,
            record_path,
            payload,
            steps[at]->hint,
        ).1 is Ok,
        after_steps(client, vault_path, steps, steps.len() as int).vault_exists(vault_path),
        after_steps(client, vault_path, steps, steps.len() as int).read_secret(
            vault_path,
            record_path,
        ) == Some(payload),
{
    assert(steps[at] is Write);
    if client.vault_exists(vault_path) {
        lemma_vault_stays(client, vault_path, steps, 0, at);
    } else {
        let j = choose|j: int| 0 <= j < at && #[trigger] steps[j] is Create;
        assert(after_steps(client, vault_path, steps, j + 1).vault_exists(vault_path));
        lemma_vault_stays(client, vault_path, steps, j + 1, at);
    }
    lemma_writers_do_not_revoke(client, vault_path, steps, at, record_path);
    lemma_vault_stays(client, vault_path, steps, at, steps.len() as int);
    lemma_written_stays(client, vault_path, steps, at, steps.len() as int, record_path, payload);
}

/// After a deletion with garbage collection the record is gone: it
/// does not exist, cannot be read, is no longer stored, and is not
/// among the records that a listing shows.
pub proof fn lemma_delete_with_gc(system: RegistryView, vault_path: Seq<u8>, record_path: Seq<u8>)
    requires
        system.has_current(),
        system.current().vault_exists(vault_path),
    ensures
        ({
            let (after, done) = system.delete_data(vault_path, record_path, true);
            let vault = after.current().vaults[vault_path];
            &&& done is Ok
            &&& after.record_exists(vault_path, record_path) == Ok::<_, Error>(false)
            &&& after.read_secret(vault_path, record_path) == Ok::<_, Error>(None::<Seq<u8>>)
            &&& !vault.is_stored(record_path)
            &&& !vault.live_paths().contains(record_path)
            &&& after.list_hints_and_ids(vault_path) == Ok::<_, Error<VaultDoesNotExist>>(
                vault.listing(),
            )
        }),
{
    broadcast use group_filter_ensures;

    let (after, done) = system.delete_data(vault_path, record_path, true);
    let vault = after.current().vaults[vault_path];
    assert(!vault.is_stored(record_path));
    if vault.live_paths().contains(record_path) {
        assert(vault.is_live(record_path));
    }
}

/// After a deletion without garbage collection the record cannot be
/// read, but is still stored: the number of stored records is what it
/// was, and only the garbage collection brings it down.
pub proof fn lemma_revoke_without_gc(system: RegistryView, vault_path: Seq<u8>, record_path: Seq<u8>)
    requires
        system.has_current(),
        system.record_exists(vault_path, record_path) == Ok::<_, Error>(true),
        system.current().vaults[vault_path].valid(),
    ensures
        ({
            let (revoked, done) = system.delete_data(vault_path, record_path, false);
            let (collected, collection) = revoked.garbage_collect(vault_path);
            &&& done is Ok
            &&& revoked.read_secret(vault_path, record_path) == Ok::<_, Error>(None::<Seq<u8>>)
            &&& revoked.record_exists(vault_path, record_path) == Ok::<_, Error>(false)
            &&& revoked.current().vaults[vault_path].is_stored(record_path)
            &&& revoked.stored_records(vault_path) == system.stored_records(vault_path)
            &&& collection is Ok
            &&& collected.stored_records(vault_path)->Ok_0 < revoked.stored_records(
                vault_path,
            )->Ok_0
            &&& !collected.current().vaults[vault_path].is_stored(record_path)
        }),
{
    broadcast use group_filter_ensures;

    let (revoked, done) = system.delete_data(vault_path, record_path, false);
    let vault = revoked.current().vaults[vault_path];
    let live = |p: Seq<u8>| vault.is_live(p);
    let order = vault.order;
    assert(order == system.current().vaults[vault_path].order);
    assert(order.contains(record_path));
    let i = choose|i: int| 0 <= i < order.len() && order[i] == record_path;
    let head = order.subrange(0, i);
    let tail = order.subrange(i + 1, order.len() as int);
    let one = seq![record_path];
    assert(order =~= head + one + tail);
    Seq::filter_distributes_over_add(head + one, tail, live);
    Seq::filter_distributes_over_add(head, one, live);
    assert(one.filter(live).len() == 0) by {
        assert(!live(record_path));
        if one.filter(live).len() > 0 {
            let x = one.filter(live)[0];
            assert(one.filter(live).contains(x));
            one.lemma_filter_contains_rev(live, x);
            assert(one.contains(x));
            assert(x == record_path);
        }
    }
    assert(head.filter(live).len() <= head.len());
    assert(tail.filter(live).len() <= tail.len());
}

/// An entry written to the store with a lifetime is read back until
/// the lifetime has passed, and not from then on.
pub proof fn lemma_store_entry_expires(
    system: RegistryView,
    key: Seq<u8>,
    value: Seq<u8>,
    lifetime: u64,
    written: u64,
    now: u64,
)
    requires
        system.has_current(),
    ensures
        ({
            let (after, _) = system.write_to_store(key, value, Some(lifetime), written);
            &&& now < written + lifetime ==> after.read_from_store(key, now) == Ok::<_, Error>(
                Some(value),
            )
            &&& now >= written + lifetime ==> after.read_from_store(key, now) == Ok::<_, Error>(
                None::<Seq<u8>>,
            )
        }),
{
}

/// An entry written to the store without a lifetime is read back at
/// every later time, until it is deleted.
pub proof fn lemma_store_entry_persists(
    system: RegistryView,
    key: Seq<u8>,
    value: Seq<u8>,
    written: u64,
    now: u64,
)
    requires
        system.has_current(),
    ensures
        ({
            let (after, _) = system.write_to_store(key, value, None, written);
            &&& after.read_from_store(key, now) == Ok::<_, Error>(Some(value))
            &&& after.delete_from_store(key).0.read_from_store(key, now) == Ok::<_, Error>(
                None::<Seq<u8>>,
            )
        }),
{
}

/// A snapshot of a system restores, into the target of any system,
/// exactly the vaults and the store of the client asked for, and
/// leaves every other client of that system as it is.
pub proof fn lemma_snapshot_round_trip(
    source: RegistryView,
    file: Seq<u8>,
    key: Seq<u8>,
    system: RegistryView,
    id: Seq<u8>,
)
    requires
        key.len() == KEY_SIZE,
        is_snapshot_of(file, key, source),
        source.is_spawned(id),
        system.has_current(),
    ensures
        ({
            let (after, done) = system.read_snapshot(id, None, key, file);
            &&& done is Ok
            &&& after.target == system.target
            &&& after.current().id == id
            &&& after.current().vaults == source.clients[id].vaults
            &&& after.current().store == source.clients[id].store
            &&& forall|other: Seq<u8>|
                other != system.target->0 ==> (#[trigger] after.is_spawned(other)
                    <==> system.is_spawned(other))
            &&& forall|other: Seq<u8>|
                other != system.target->0 && #[trigger] system.is_spawned(other)
                    ==> after.clients[other] == system.clients[other]
        }),
{
}

/// A snapshot read into a former client installs the state there and
/// makes that client the target; every other client stays as it is.
pub proof fn lemma_snapshot_into_former(
    source: RegistryView,
    file: Seq<u8>,
    key: Seq<u8>,
    system: RegistryView,
    id: Seq<u8>,
    former: Seq<u8>,
)
    requires
        key.len() == KEY_SIZE,
        is_snapshot_of(file, key, source),
        source.is_spawned(id),
        system.is_spawned(former),
    ensures
        ({
            let (after, done) = system.read_snapshot(id, Some(former), key, file);
            &&& done is Ok
            &&& after.target == Some(former)
            &&& after.clients[former].id == id
            &&& after.clients[former].vaults == source.clients[id].vaults
            &&& after.clients[former].store == source.clients[id].store
            &&& forall|other: Seq<u8>|
                other != former && #[trigger] system.is_spawned(other) ==> after.clients[other]
                    == system.clients[other]
        }),
{
}

/// A snapshot holds no state for a client that was not part of the
/// system it was taken of: reading such a client fails, and changes
/// nothing.
pub proof fn lemma_snapshot_lacks_strangers(
    source: RegistryView,
    file: Seq<u8>,
    key: Seq<u8>,
    system: RegistryView,
    id: Seq<u8>,
    former: Option<Seq<u8>>,
)
    requires
        key.len() == KEY_SIZE,
        is_snapshot_of(file, key, source),
        !source.is_spawned(id),
        system.has_snapshot_worker(former),
    ensures
        system.read_snapshot(id, former, key, file) == (
            system,
            Err::<(), _>(Error::Inner(ReadSnapshotError::ClientNotFound)),
        ),
{
}

/// A read of a snapshot that fails changes nothing: neither what any
/// client stores nor the target, whether or not a former client is
/// named. It fails for want of a worker before anything else, and for
/// a key of the wrong length before the file is looked at.
pub proof fn lemma_failed_read_changes_nothing(
    system: RegistryView,
    file: Seq<u8>,
    key: Seq<u8>,
    id: Seq<u8>,
    former: Option<Seq<u8>>,
)
    ensures
        system.read_snapshot(id, former, key, file).1 is Err ==> system.read_snapshot(
            id,
            former,
            key,
            file,
        ).0 == system,
        !system.has_snapshot_worker(former) ==> system.read_snapshot(id, former, key, file).1
            == Err::<(), Error<ReadSnapshotError>>(Error::ActorNotSpawned),
        system.has_snapshot_worker(former) && key.len() != KEY_SIZE ==> system.read_snapshot(
            id,
            former,
            key,
            file,
        ).1 == Err::<(), _>(Error::Inner(ReadSnapshotError::InvalidKey)),
{
}

/// A file whose sealed part does not open under the key reads as a
/// decryption failure, never as data: nothing is installed and the
/// target stays.
pub proof fn lemma_unopened_snapshot_is_no_data(
    system: RegistryView,
    file: Seq<u8>,
    key: Seq<u8>,
    id: Seq<u8>,
    former: Option<Seq<u8>>,
)
    requires
        system.has_snapshot_worker(former),
        key.len() == KEY_SIZE,
        file.len() >= HEADER_SIZE + SEAL_SIZE,
        file.subrange(0, 5) == MAGIC@,
        file.subrange(5, HEADER_SIZE as int) == VERSION@,
        opened(file.skip(HEADER_SIZE as int), key, Seq::empty()) is None,
    ensures
        system.read_snapshot(id, former, key, file) == (
            system,
            Err::<(), _>(Error::Inner(ReadSnapshotError::Decryption)),
        ),
{
}

/// Clearing the cache of a client, which is what becomes of a kill
/// that does not remove it, leaves every record and every store entry
/// as it is, and the target too.
pub proof fn lemma_clear_cache_keeps_contents(system: RegistryView, id: Seq<u8>)
    requires
        system.is_spawned(id),
    ensures
        system.kill(id, false) == (system, Ok::<(), Error>(())),
{
    assert(system.kill(id, false).0 =~= system);
}

/// Aiming at a client that was never spawned fails and leaves the
/// target, and everything else, as it was.
pub proof fn lemma_switch_to_unspawned(system: RegistryView, id: Seq<u8>)
    requires
        !system.is_spawned(id),
    ensures
        system.switch_target(id) == system,
{
}

/// A node whose firewall has neither a rule for a peer nor a default
/// rule rejects every request of that peer, and nothing changes,
/// whether or not the node has a target.
pub proof fn lemma_inbound_default_deny(
    system: RegistryView,
    peer: Seq<u8>,
    request: ShRequest,
    approved: bool,
    now: u64,
    after: RegistryView,
    answer: Result<ShResultView, Error>,
)
    requires
        system.network matches Some(firewall) && firewall.peer_rule(peer, RuleDirection::Inbound)
            is None && firewall.default.inbound is None,
        system.handles(peer, request, approved, now, after, answer),
    ensures
        after == system,
        answer == Ok::<ShResultView, Error>(ShResultView::Rejected),
{
}

/// The firewall is asked before the target is looked for: a request
/// that it does not admit is answered with the rejection and changes
/// nothing, with or without a target; and only an admitted request
/// can fail for want of a target.
pub proof fn lemma_firewall_comes_first(
    system: RegistryView,
    peer: Seq<u8>,
    request: ShRequest,
    approved: bool,
    now: u64,
    after: RegistryView,
    answer: Result<ShResultView, Error>,
)
    requires
        system.network is Some,
        system.handles(peer, request, approved, now, after, answer),
    ensures
        !system.admits(peer, request, approved) ==> after == system && answer == Ok::<
            ShResultView,
            Error,
        >(ShResultView::Rejected),
        system.admits(peer, request, approved) && !system.has_current() ==> after == system
            && answer == Err::<ShResultView, Error>(Error::ActorNotSpawned),
        system.admits(peer, request, approved) && system.has_current() ==> answer is Ok
            && answer != Ok::<ShResultView, Error>(ShResultView::Rejected),
{
    if system.admits(peer, request, approved) && system.has_current() {
        let served = answer->Ok_0;
        let client = choose|client: ClientView| #[trigger]
            system.current().answers(request, now, client, served) && after
                == system.with_current(client);
        assert(served != ShResultView::Rejected);
    }
}

/// Once a rule that allows everything is set for a peer, every request
/// of that peer is admitted, whatever the default rule says.
pub proof fn lemma_peer_allow_admits(
    system: RegistryView,
    peers: Seq<Seq<u8>>,
    peer: Seq<u8>,
    request: ShRequest,
    approved: bool,
)
    requires
        system.network is Some,
        peers.contains(peer),
    ensures
        system.set_firewall_rule(Rule::AllowAll, peers, false).1 is Ok,
        system.set_firewall_rule(Rule::AllowAll, peers, false).0.admits(peer, request, approved),
{
    lemma_set_inbound_rules(system.network->0, peers, Rule::AllowAll, peer);
}

/// Once a rule that allows everything is the default, every request of
/// a peer without a rule of its own is admitted.
pub proof fn lemma_default_allow_admits(
    system: RegistryView,
    peer: Seq<u8>,
    request: ShRequest,
    approved: bool,
)
    requires
        system.network matches Some(firewall) && firewall.peer_rule(peer, RuleDirection::Inbound)
            is None,
    ensures
        system.set_firewall_rule(Rule::AllowAll, Seq::empty(), true).1 is Ok,
        system.set_firewall_rule(Rule::AllowAll, Seq::empty(), true).0.admits(
            peer,
            request,
            approved,
        ),
{
    let with_default = system.network->0.set_default(RuleDirection::Inbound, Some(Rule::AllowAll));
    lemma_set_inbound_rules(with_default, Seq::empty(), Rule::AllowAll, peer);
}

/// Removing the rules of peers leaves the default rule in force: each
/// of those peers is then judged by the default alone.
pub proof fn lemma_removed_rules_fall_back(
    system: RegistryView,
    peers: Seq<Seq<u8>>,
    peer: Seq<u8>,
)
    requires
        system.network is Some,
        peers.contains(peer),
    ensures
        ({
            let after = system.remove_firewall_rules(peers).0.network->0;
            &&& after.default == system.network->0.default
            &&& after.effective_rule(peer, RuleDirection::Inbound)
                == system.network->0.default.inbound
        }),
{
    lemma_remove_inbound_rules(system.network->0, peers, peer);
}

} // verus!
