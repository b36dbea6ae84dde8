//! The layout of the trash store, and the decisions of a scan over it.
use vstd::prelude::*;
use crate::item::TrashItem;
use crate::naming::{join_path, joined, restored_path, restored_path_spec};
use crate::sidecar::SidecarRecord;
use crate::text::{chars_of, push_all, text_of};

verus! {

pub open spec fn trash_word() -> Seq<char> {
    seq!['T', 'r', 'a', 's', 'h']
}

/// Where the store lies below a home directory.
pub open spec fn home_trash() -> Seq<char> {
    seq!['.', 'l', 'o', 'c', 'a', 'l', '/', 's', 'h', 'a', 'r', 'e', '/', 'T', 'r', 'a', 's', 'h']
}

pub open spec fn files_word() -> Seq<char> {
    seq!['f', 'i', 'l', 'e', 's']
}

pub open spec fn info_word() -> Seq<char> {
    seq!['i', 'n', 'f', 'o']
}

/// The suffix of a sidecar's file name.
pub open spec fn info_suffix() -> Seq<char> {
    seq!['.', 't', 'r', 'a', 's', 'h', 'i', 'n', 'f', 'o']
}

/// The store root: `<data home>/Trash` when a non-empty data home is given,
/// else `<home>/.local/share/Trash`, else none.
pub open spec fn root_spec(data_home: Option<Seq<char>>, home: Option<Seq<char>>) -> Option<Seq<char>> {
    match data_home {
        Some(d) if d.len() > 0 => Some(joined(d, trash_word())),
        _ => match home {
            Some(h) => Some(joined(h, home_trash())),
            None => None,
        },
    }
}

/// Locates the store root from the data-home setting and the home directory.
pub fn trash_root(data_home: Option<&str>, home: Option<&str>) -> (r: Option<String>)
    ensures
        match r {
            Some(v) => root_spec(
                match data_home { Some(d) => Some(d@), None => None },
                match home { Some(h) => Some(h@), None => None },
            ) == Some(v@),
            None => root_spec(
                match data_home { Some(d) => Some(d@), None => None },
                match home { Some(h) => Some(h@), None => None },
            ) is None,
        },
{
    match data_home {
        Some(d) => {
            if chars_of(d).len() > 0 {
                let w = text_of(&vec!['T', 'r', 'a', 's', 'h']);
                assert(w@ =~= trash_word());
                return Some(join_path(d, w.as_str()));
            }
        },
        None => {},
    }
    match home {
        Some(h) => {
            let w = text_of(
                &vec!['.', 'l', 'o', 'c', 'a', 'l', '/', 's', 'h', 'a', 'r', 'e', '/', 'T', 'r', 'a', 's', 'h'],
            );
            assert(w@ =~= home_trash());
            Some(join_path(h, w.as_str()))
        },
        None => None,
    }
}

/// The content area of the store.
pub fn files_dir(root: &str) -> (r: String)
    ensures
        r@ == joined(root@, files_word()),
{
    let w = text_of(&vec!['f', 'i', 'l', 'e', 's']);
    assert(w@ =~= files_word());
    join_path(root, w.as_str())
}

/// The metadata area of the store.
pub fn info_dir(root: &str) -> (r: String)
    ensures
        r@ == joined(root@, info_word()),
{
    let w = text_of(&vec!['i', 'n', 'f', 'o']);
    assert(w@ =~= info_word());
    join_path(root, w.as_str())
}

/// The file name of the sidecar of a stored entry.
pub fn info_file_name(trashed_name: &str) -> (r: String)
    ensures
        r@ == trashed_name@ + info_suffix(),
{
    let mut v = chars_of(trashed_name);
    let suffix = vec!['.', 't', 'r', 'a', 's', 'h', 'i', 'n', 'f', 'o'];
    assert(suffix@ =~= info_suffix());
    push_all(&mut v, &suffix);
    text_of(&v)
}

/// The stored name that a sidecar's file name belongs to: the name without
/// its `.trashinfo` suffix; none for a file that is no sidecar.
pub fn trashed_name_of(info_name: &str) -> (r: Option<String>)
    ensures
        match r {
            Some(v) => info_name@ == v@ + info_suffix() && v@.len() > 0,
            None => !(info_name@.len() > info_suffix().len()
                && info_suffix().is_suffix_of(info_name@)),
        },
{
    let v = chars_of(info_name);
    let suffix = vec!['.', 't', 'r', 'a', 's', 'h', 'i', 'n', 'f', 'o'];
    assert(suffix@ =~= info_suffix());
    let n = v.len();
    let k = suffix.len();
    if n <= k {
        return None;
    }
    let start = n - k;
    let mut i: usize = 0;
    while i < k
        invariant
            suffix@ == info_suffix(),
            v@ == info_name@,
            k == suffix@.len(),
            n == v@.len(),
            start == n - k,
            i <= k,
            forall|j: int| 0 <= j < i ==> v@[start + j] == suffix@[j],
        decreases k - i,
    {
        if v[start + i] != suffix[i] {
            assert(v@.skip(start as int)[i as int] != suffix@[i as int]);
            assert(!info_suffix().is_suffix_of(v@)) by {
                if info_suffix().is_suffix_of(v@) {
                    assert(info_suffix() =~= v@.subrange(start as int, n as int));
                    assert(v@.subrange(start as int, n as int)[i as int] == v@[start + i]);
                    assert(false);
                }
            };
            return None;
        }
        i = i + 1;
    }
    let mut stem: Vec<char> = Vec::new();
    let mut j: usize = 0;
    while j < start
        invariant
            start < v@.len(),
            j <= start,
            stem@ =~= v@.take(j as int),
        decreases start - j,
    {
        stem.push(v[j]);
        j = j + 1;
    }
    assert(v@ =~= stem@ + suffix@);
    Some(text_of(&stem))
}

/// What a scan keeps of a sidecar: the item, when the sidecar held a record
/// and the entry's content is in the store; none when the sidecar is corrupt
/// or orphaned and is to be removed.
pub fn admit_sidecar(
    trashed_name: String,
    info_path: String,
    record: Option<SidecarRecord>,
    content_present: bool,
) -> (r: Option<TrashItem>)
    ensures
        match r {
            Some(item) => record is Some && content_present
                && item.original_path@ == record->0.original_path@
                && item.deletion_time == record->0.deletion_time
                && item.trashed_name@ == trashed_name@
                && item.info_path@ == info_path@,
            None => record is None || !content_present,
        },
{
    match record {
        Some(rec) => if content_present {
            Some(TrashItem {
                original_path: rec.original_path,
                deletion_time: rec.deletion_time,
                trashed_name,
                info_path,
            })
        } else {
            None
        },
        None => None,
    }
}

/// Why a restore was refused.
#[derive(Clone, Copy, Debug, PartialEq, Eq, Structural)]
pub enum RestoreError {
    /// The index names no item of the listing.
    NoSuchItem,
    /// Both the original path and its renamed alternative are taken.
    DestinationTaken,
}

/// The position in the listing of the item with 1-based index `n`.
pub fn select_item(count: usize, n: usize) -> (r: Result<usize, RestoreError>)
    ensures
        match r {
            Ok(i) => 1 <= n <= count && i == n - 1,
            Err(e) => e == RestoreError::NoSuchItem && (n == 0 || n > count),
        },
{
    if n == 0 || n > count {
        Err(RestoreError::NoSuchItem)
    } else {
        Ok(n - 1)
    }
}

/// Where an item goes back to: its original path, unless that path is taken,
/// in which case the renamed path beside it for the day `date`; an error when
/// that one is taken as well, so that no existing entry is replaced.
pub fn restore_target(original: &str, taken: bool, renamed_taken: bool, date: &str) -> (r: Result<
    String,
    RestoreError,
>)
    ensures
        match r {
            Ok(v) => !(taken && renamed_taken) && v@ == if taken {
                restored_path_spec(original@, date@)
            } else {
                original@
            },
            Err(e) => e == RestoreError::DestinationTaken && taken && renamed_taken,
        },
{
    if !taken {
        Ok(text_of(&chars_of(original)))
    } else if renamed_taken {
        Err(RestoreError::DestinationTaken)
    } else {
        Ok(restored_path(original, date))
    }
}

} // verus!
