//! The store as a run sees it and leaves it: what it answers when asked
//! about a file, and what it holds after the writes of a run.

use crate::entry::MirrorFileView;
use crate::storage::{sidecar_of, status_of, FileStatusView};
use crate::text::trimmed;
use crate::upload::{
    all_present, lemma_up_to_date, missing_files, status_fault, status_faults, ActionView, EventView,
    OutcomeView, RunView,
};
use crate::utils::hex;
use vstd::prelude::*;
use vstd::utf8::{decode_utf8, encode_utf8};

verus! {

/// What a store holds: bytes by key.
pub type Store = Map<Seq<char>, Seq<u8>>;

/// What `store` answers when asked about the file named `name`.
pub open spec fn store_status(store: Store, name: Seq<char>) -> FileStatusView {
    status_of(
        if store.contains_key(sidecar_of(name)) {
            Some(decode_utf8(store[sidecar_of(name)]))
        } else {
            None
        },
        store.contains_key(name),
    )
}

/// What `store` answers when asked about each of `files`.
pub open spec fn store_statuses(store: Store, files: Seq<MirrorFileView>) -> Seq<FileStatusView> {
    Seq::new(files.len(), |i: int| store_status(store, files[i].name))
}

/// `store` after `bytes` were written under `key` by a write that creates
/// and never replaces; `None` where the key is taken and the write fails.
pub open spec fn created(store: Store, key: Seq<char>, bytes: Seq<u8>) -> Option<Store> {
    if store.contains_key(key) {
        None
    } else {
        Some(store.insert(key, bytes))
    }
}

/// `store` after the writes of a run for `files`, one after the other:
/// for each file its content, which is that of `contents` at the same
/// index, under its name, then its declared hash under the hash key.
/// `None` where one of the writes fails.
pub open spec fn after_writes(
    store: Store,
    files: Seq<MirrorFileView>,
    contents: Seq<Seq<u8>>,
) -> Option<Store>
    decreases files.len(),
{
    if files.len() == 0 {
        Some(store)
    } else {
        match after_writes(store, files.drop_last(), contents.drop_last()) {
            Some(so_far) => match created(so_far, files.last().name, contents.last()) {
                Some(with_content) => created(
                    with_content,
                    sidecar_of(files.last().name),
                    encode_utf8(files.last().sha256),
                ),
                None => None,
            },
            None => None,
        }
    }
}

/// The writes of a run leave what the store held as it was, and put the
/// declared hash of every file under the file's hash key.
pub proof fn lemma_after_writes(store: Store, files: Seq<MirrorFileView>, contents: Seq<Seq<u8>>)
    requires
        after_writes(store, files, contents) is Some,
    ensures
        forall|key: Seq<char>|
            store.contains_key(key) ==> (#[trigger] after_writes(
                store,
                files,
                contents,
            )->0.contains_key(key)) && after_writes(store, files, contents)->0[key] == store[key],
        forall|j: int|
            0 <= j < files.len() ==> after_writes(store, files, contents)->0.contains_key(
                sidecar_of(#[trigger] files[j].name),
            ) && after_writes(store, files, contents)->0[sidecar_of(files[j].name)] == encode_utf8(
                files[j].sha256,
            ),
    decreases files.len(),
{
    if files.len() > 0 {
        let front = files.drop_last();
        lemma_after_writes(store, front, contents.drop_last());
        let so_far = after_writes(store, front, contents.drop_last())->0;
        let last = files.last();
        let with_content = created(so_far, last.name, contents.last())->0;
        let end = after_writes(store, files, contents)->0;
        assert(end == with_content.insert(sidecar_of(last.name), encode_utf8(last.sha256)));
        assert forall|key: Seq<char>| store.contains_key(key) implies (#[trigger] end.contains_key(
            key,
        )) && end[key] == store[key] by {
            assert(so_far.contains_key(key));
        }
        assert forall|j: int| 0 <= j < files.len() implies end.contains_key(
            sidecar_of(#[trigger] files[j].name),
        ) && end[sidecar_of(files[j].name)] == encode_utf8(files[j].sha256) by {
            if j < front.len() {
                assert(front[j] == files[j]);
            }
        }
    }
}

/// A file that the store lacks is among the missing files.
pub proof fn lemma_missing_files(
    files: Seq<MirrorFileView>,
    statuses: Seq<FileStatusView>,
    i: int,
)
    requires
        statuses.len() == files.len(),
        0 <= i < files.len(),
        statuses[i] is Missing,
    ensures
        missing_files(files, statuses).contains(files[i]),
    decreases files.len(),
{
    let rest = missing_files(files.drop_last(), statuses.drop_last());
    if i < files.len() - 1 {
        lemma_missing_files(files.drop_last(), statuses.drop_last(), i);
        let j = choose|j: int| 0 <= j < rest.len() && rest[j] == files.drop_last()[i];
        assert(missing_files(files, statuses)[j] == files[i]);
    } else {
        assert(rest.push(files[i])[rest.len() as int] == files[i]);
    }
}

/// Where nothing is wrong with the statuses, nothing is wrong with any.
pub proof fn lemma_no_status_fault(
    files: Seq<MirrorFileView>,
    statuses: Seq<FileStatusView>,
    i: int,
)
    requires
        statuses.len() == files.len(),
        0 <= i < files.len(),
        status_faults(files, statuses).len() == 0,
    ensures
        status_fault(files[i], statuses[i]) is None,
    decreases files.len(),
{
    if i < files.len() - 1 {
        lemma_no_status_fault(files.drop_last(), statuses.drop_last(), i);
    }
}

/// A hex form has no white space around it.
pub proof fn lemma_hex_trimmed(bytes: Seq<u8>)
    ensures
        trimmed(hex(bytes)) == hex(bytes),
{
    let text = hex(bytes);
    if text.len() > 0 {
        crate::utils::lemma_hex_digits(bytes, 0);
        crate::utils::lemma_hex_digits(bytes, text.len() - 1);
    } else {
        assert(text.skip(0) =~= text);
    }
}

/// After a run that found nothing wrong and whose writes all went
/// through, the store holds every file with its declared hash, so that the
/// next run finds all up to date. The hashes of the files that were written
/// have to be free of white space around them, as every hex form is.
pub proof fn lemma_uploaded_then_present(
    store: Store,
    files: Seq<MirrorFileView>,
    contents: Seq<Seq<u8>>,
)
    requires
        status_faults(files, store_statuses(store, files)).len() == 0,
        after_writes(store, missing_files(files, store_statuses(store, files)), contents) is Some,
        forall|j: int|
            0 <= j < missing_files(files, store_statuses(store, files)).len() ==> trimmed(
                (#[trigger] missing_files(files, store_statuses(store, files))[j]).sha256,
            ) == missing_files(files, store_statuses(store, files))[j].sha256,
    ensures
        all_present(
            files,
            store_statuses(
                after_writes(
                    store,
                    missing_files(files, store_statuses(store, files)),
                    contents,
                )->0,
                files,
            ),
        ),
{
    let statuses = store_statuses(store, files);
    let to_upload = missing_files(files, statuses);
    let end = after_writes(store, to_upload, contents)->0;
    lemma_after_writes(store, to_upload, contents);
    assert forall|i: int| 0 <= i < files.len() implies #[trigger] store_statuses(end, files)[i]
        == (FileStatusView::Present { sha256: files[i].sha256 }) by {
        lemma_no_status_fault(files, statuses, i);
        let name = files[i].name;
        if statuses[i] is Missing {
            lemma_missing_files(files, statuses, i);
            let j = choose|j: int| 0 <= j < to_upload.len() && to_upload[j] == files[i];
            assert(end.contains_key(sidecar_of(to_upload[j].name)));
            vstd::utf8::encode_utf8_decode_utf8(files[i].sha256);
        } else {
            assert(store.contains_key(sidecar_of(name)));
        }
    }
}

/// Running twice writes once: after a run that found nothing wrong and
/// whose writes all went through, a run about the same files, with nothing
/// wrong beforehand, is told by the store that all is up to date, and ends
/// there without a fetch or a write.
pub proof fn lemma_second_run_up_to_date(
    store: Store,
    contents: Seq<Seq<u8>>,
    second: RunView,
)
    requires
        status_faults(second.files, store_statuses(store, second.files)).len() == 0,
        after_writes(
            store,
            missing_files(second.files, store_statuses(store, second.files)),
            contents,
        ) is Some,
        forall|j: int|
            0 <= j < missing_files(second.files, store_statuses(store, second.files)).len()
                ==> trimmed(
                (#[trigger] missing_files(
                    second.files,
                    store_statuses(store, second.files),
                )[j]).sha256,
            ) == missing_files(second.files, store_statuses(store, second.files))[j].sha256,
        second.stage is Statuses,
        second.errors.len() == 0,
    ensures
        second.step(
            EventView::Statuses(
                store_statuses(
                    after_writes(
                        store,
                        missing_files(second.files, store_statuses(store, second.files)),
                        contents,
                    )->0,
                    second.files,
                ),
            ),
        ).1 == ActionView::Finish(OutcomeView::UpToDate),
{
    lemma_uploaded_then_present(store, second.files, contents);
    let end = after_writes(
        store,
        missing_files(second.files, store_statuses(store, second.files)),
        contents,
    )->0;
    lemma_up_to_date(second, store_statuses(end, second.files));
}

} // verus!
