//! The sound effects the app plays: which files in the sounds folder are
//! sounds, the names they go by, their lengths as the `NEW_SOUNDS` event gives
//! them, and the library of loaded sounds that the folder watcher keeps up to
//! date.
use vstd::prelude::*;
use crate::text::{
    chars_equal, chars_of, find_char, lemma_next_index, next_index, opt_view, string_of,
};

verus! {

broadcast use vstd::string::group_string_axioms;

/// The length that the `NEW_SOUNDS` event gives a sound of `length_ms` whole
/// milliseconds: that number cut to 32 bits, as `as u32` cuts it; 0 where the
/// decoder could not tell the length (`None`).
pub open spec fn reported_length(length_ms: Option<u128>) -> u32 {
    match length_ms {
        Some(m) => (m % 0x1_0000_0000) as u32,
        None => 0,
    }
}

/// The length that the `NEW_SOUNDS` event gives a sound of `length_ms` whole
/// milliseconds (`None` where the decoder could not tell).
pub fn sound_duration_ms(length_ms: Option<u128>) -> (r: u32)
    ensures
        r == reported_length(length_ms),
{
    match length_ms {
        Some(m) => {
            assert(m as u32 == m % 0x1_0000_0000) by (bit_vector);
            #[verifier::truncate]
            (m as u32)
        },
        None => 0,
    }
}

/// Whether `s` ends with `p`.
pub open spec fn has_suffix(s: Seq<char>, p: Seq<char>) -> bool {
    p.len() <= s.len() && s.subrange(s.len() - p.len(), s.len() as int) == p
}

/// Whether `s` ends with `p`.
fn ends_with_chars(s: &Vec<char>, p: &Vec<char>) -> (r: bool)
    ensures
        r == has_suffix(s@, p@),
{
    if p.len() > s.len() {
        return false;
    }
    let off: usize = s.len() - p.len();
    let mut i: usize = 0;
    while i < p.len()
        invariant
            off + p.len() == s.len(),
            i <= p.len(),
            forall|j: int| 0 <= j < i ==> s@[off + j] == p@[j],
        decreases p.len() - i,
    {
        if s[off + i] != p[i] {
            assert(s@.subrange(off as int, s.len() as int)[i as int] != p@[i as int]);
            return false;
        }
        i = i + 1;
    }
    assert(s@.subrange(off as int, s.len() as int) == p@);
    true
}

/// Whether a file of the sounds folder holds a sound: it has a name, and the
/// name ends neither in `.md` nor in `.gitignore`.
pub open spec fn is_sound_file_spec(file_name: Option<Seq<char>>) -> bool {
    match file_name {
        Some(n) => !has_suffix(n, ".md"@) && !has_suffix(n, ".gitignore"@),
        None => false,
    }
}

/// Whether a file of the sounds folder holds a sound, by its name (`None`
/// where the path has none).
pub fn is_sound_file(file_name: Option<&str>) -> (r: bool)
    ensures
        r == is_sound_file_spec(opt_view(file_name)),
{
    match file_name {
        Some(n) => {
            let v = chars_of(n);
            !ends_with_chars(&v, &chars_of(".md")) && !ends_with_chars(&v, &chars_of(".gitignore"))
        },
        None => false,
    }
}

/// The name a sound goes by: its file's name up to the first `.`.
pub open spec fn sound_name_spec(file_name: Seq<char>) -> Seq<char> {
    file_name.take(next_index(file_name, '.', 0))
}

/// A sound's name is the part of its file's name before the first `.`: it is a
/// prefix of the file name holding no `.`, and either it is the whole file name
/// or a `.` follows it there. Every other character, `_` and `-` among them,
/// is kept.
pub proof fn lemma_sound_name_is_prefix_before_dot(file_name: Seq<char>)
    ensures
        ({
            let n = sound_name_spec(file_name);
            &&& n.len() <= file_name.len()
            &&& n == file_name.subrange(0, n.len() as int)
            &&& forall|i: int| 0 <= i < n.len() ==> #[trigger] n[i] != '.'
            &&& (n.len() == file_name.len() || file_name[n.len() as int] == '.')
        }),
        (forall|i: int| 0 <= i < file_name.len() ==> #[trigger] file_name[i] != '.') ==> sound_name_spec(
            file_name,
        ) == file_name,
{
    lemma_next_index(file_name, '.', 0);
    let n = sound_name_spec(file_name);
    assert forall|i: int| 0 <= i < n.len() implies #[trigger] n[i] != '.' by {
        assert(n[i] == file_name[i]);
    }
    if forall|i: int| 0 <= i < file_name.len() ==> #[trigger] file_name[i] != '.' {
        assert(next_index(file_name, '.', 0) == file_name.len());
        assert(n == file_name);
    }
}

/// The name a sound goes by: its file's name up to the first `.`.
pub fn sound_name(file_name: &str) -> (r: String)
    ensures
        r@ == sound_name_spec(file_name@),
{
    let v = chars_of(file_name);
    let end = find_char(&v, '.', 0);
    proof {
        lemma_next_index(v@, '.', 0);
    }
    string_of(&v, 0, end)
}

/// A sound just loaded, as the `NEW_SOUNDS` event lists it.
pub struct NewSound {
    pub name: String,
    pub duration_ms: u32,
}

/// The loaded sounds, by name.
pub struct SoundLibrary {
    entries: Vec<(Vec<char>, Vec<u8>)>,
}

impl View for SoundLibrary {
    type V = Map<Seq<char>, Seq<u8>>;

    /// The bytes of each loaded sound, by name.
    closed spec fn view(&self) -> Map<Seq<char>, Seq<u8>> {
        Map::new(
            |n: Seq<char>| exists|i: int| 0 <= i < self.entries@.len() && self.entries@[i].0@ == n,
            |n: Seq<char>|
                self.entries@[choose|i: int|
                    0 <= i < self.entries@.len() && self.entries@[i].0@ == n].1@,
        )
    }
}

impl SoundLibrary {
    /// No two sounds share a name.
    pub closed spec fn well_formed(&self) -> bool {
        forall|i: int, j: int|
            0 <= i < j < self.entries@.len() ==> #[trigger] self.entries@[i].0@
                != #[trigger] self.entries@[j].0@
    }

    /// An empty library.
    pub fn new() -> (r: Self)
        ensures
            r.well_formed(),
            r.view() == Map::<Seq<char>, Seq<u8>>::empty(),
    {
        let r = SoundLibrary { entries: Vec::new() };
        assert(r.view() == Map::<Seq<char>, Seq<u8>>::empty());
        r
    }

    /// The entry at `i` gives its name's bytes.
    proof fn lemma_view_at(&self, i: int)
        requires
            self.well_formed(),
            0 <= i < self.entries@.len(),
        ensures
            self.view().dom().contains(self.entries@[i].0@),
            self.view()[self.entries@[i].0@] == self.entries@[i].1@,
    {
        let n = self.entries@[i].0@;
        assert(exists|k: int| 0 <= k < self.entries@.len() && self.entries@[k].0@ == n);
        let k: int = choose|k: int| 0 <= k < self.entries@.len() && self.entries@[k].0@ == n;
        if k != i {
            if k < i {
                assert(self.entries@[k].0@ != self.entries@[i].0@);
            } else {
                assert(self.entries@[i].0@ != self.entries@[k].0@);
            }
        }
    }

    /// The position of the sound named `name`, if there is one.
    fn position(&self, name: &Vec<char>) -> (r: Option<usize>)
        requires
            self.well_formed(),
        ensures
            match r {
                Some(i) => i < self.entries@.len() && self.entries@[i as int].0@ == name@,
                None => forall|i: int|
                    0 <= i < self.entries@.len() ==> self.entries@[i].0@ != name@,
            },
    {
        let mut i: usize = 0;
        while i < self.entries.len()
            invariant
                i <= self.entries@.len(),
                forall|j: int| 0 <= j < i ==> self.entries@[j].0@ != name@,
            decreases self.entries.len() - i,
        {
            if chars_equal(&self.entries[i].0, name) {
                return Some(i);
            }
            i = i + 1;
        }
        None
    }

    /// The bytes of the sound named `name`.
    pub fn get(&self, name: &str) -> (r: Option<&Vec<u8>>)
        requires
            self.well_formed(),
        ensures
            match r {
                Some(b) => self.view().dom().contains(name@) && b@ == self.view()[name@],
                None => !self.view().dom().contains(name@),
            },
    {
        let key = chars_of(name);
        match self.position(&key) {
            Some(i) => {
                proof {
                    self.lemma_view_at(i as int);
                }
                Some(&self.entries[i].1)
            },
            None => None,
        }
    }

    /// Drops the entry at `i` by moving the last entry into its place.
    fn swap_remove_at(&mut self, i: usize)
        requires
            old(self).well_formed(),
            i < old(self).entries@.len(),
        ensures
            final(self).well_formed(),
            final(self).view() == old(self).view().remove(old(self).entries@[i as int].0@),
    {
        let ghost old_entries = self.entries@;
        let ghost gone = self.entries@[i as int].0@;
        let ghost old_view = self.view();
        proof {
            self.lemma_view_at(i as int);
        }
        self.entries.swap_remove(i);
        let ghost new_entries = self.entries@;
        assert forall|a: int, b: int|
            0 <= a < b < new_entries.len() implies #[trigger] new_entries[a].0@
            != #[trigger] new_entries[b].0@ by {
            let oa: int = if a == i { old_entries.len() - 1 } else { a };
            let ob: int = if b == i { old_entries.len() - 1 } else { b };
            assert(new_entries[a] == old_entries[oa]);
            assert(new_entries[b] == old_entries[ob]);
            if oa < ob {
                assert(old_entries[oa].0@ != old_entries[ob].0@);
            } else {
                assert(old_entries[ob].0@ != old_entries[oa].0@);
            }
        }
        assert forall|n: Seq<char>| #[trigger] self.view().dom().contains(n) <==> old_view.remove(
            gone,
        ).dom().contains(n) by {
            if self.view().dom().contains(n) {
                let k: int = choose|k: int| 0 <= k < new_entries.len() && new_entries[k].0@ == n;
                let ok: int = if k == i { old_entries.len() - 1 } else { k };
                assert(new_entries[k] == old_entries[ok]);
                assert(ok != i);
                if ok < i {
                    assert(old_entries[ok].0@ != old_entries[i as int].0@);
                } else {
                    assert(old_entries[i as int].0@ != old_entries[ok].0@);
                }
            }
            if old_view.remove(gone).dom().contains(n) {
                let k: int = choose|k: int| 0 <= k < old_entries.len() && old_entries[k].0@ == n;
                assert(k != i);
                let nk: int = if k == old_entries.len() - 1 { i as int } else { k };
                assert(new_entries[nk] == old_entries[k]);
            }
        }
        assert forall|n: Seq<char>| #[trigger] self.view().dom().contains(n) implies self.view()[n]
            == old_view.remove(gone)[n] by {
            let k: int = choose|k: int| 0 <= k < new_entries.len() && new_entries[k].0@ == n;
            self.lemma_view_at(k);
            let ok: int = if k == i { old_entries.len() - 1 } else { k };
            assert(new_entries[k] == old_entries[ok]);
            assert(old_view[n] == old_entries[ok].1@) by {
                let c: int = choose|c: int| 0 <= c < old_entries.len() && old_entries[c].0@ == n;
                if c != ok {
                    if c < ok {
                        assert(old_entries[c].0@ != old_entries[ok].0@);
                    } else {
                        assert(old_entries[ok].0@ != old_entries[c].0@);
                    }
                }
            }
        }
        assert(self.view() == old_view.remove(gone));
    }

    /// Removes the sound named `name`; returns whether there was one.
    pub fn remove(&mut self, name: &str) -> (r: bool)
        requires
            old(self).well_formed(),
        ensures
            final(self).well_formed(),
            r == old(self).view().dom().contains(name@),
            final(self).view() == old(self).view().remove(name@),
    {
        let key = chars_of(name);
        match self.position(&key) {
            Some(i) => {
                self.swap_remove_at(i);
                true
            },
            None => {
                assert(self.view().remove(name@) == self.view());
                false
            },
        }
    }

    /// Adds the sound `name` with `bytes`, in place of any sound of that name.
    pub fn insert(&mut self, name: &str, bytes: Vec<u8>)
        requires
            old(self).well_formed(),
        ensures
            final(self).well_formed(),
            final(self).view() == old(self).view().insert(name@, bytes@),
    {
        let key = chars_of(name);
        match self.position(&key) {
            Some(i) => {
                self.swap_remove_at(i);
            },
            None => {},
        }
        let ghost mid = self.entries@;
        let ghost mid_view = self.view();
        proof {
            assert forall|k: int| 0 <= k < mid.len() implies mid[k].0@ != key@ by {
                if mid[k].0@ == key@ {
                    self.lemma_view_at(k);
                }
            }
        }
        let ghost value = bytes@;
        self.entries.push((key, bytes));
        let ghost new_entries = self.entries@;
        assert(self.well_formed()) by {
            assert forall|a: int, b: int|
                0 <= a < b < new_entries.len() implies #[trigger] new_entries[a].0@
                != #[trigger] new_entries[b].0@ by {
                assert(new_entries[a] == mid[a]);
                if b < mid.len() {
                    assert(new_entries[b] == mid[b]);
                }
            }
        }
        assert(self.view().dom() == mid_view.insert(name@, value).dom()) by {
            assert forall|q: Seq<char>| #[trigger] self.view().dom().contains(q) implies mid_view.insert(
                name@,
                value,
            ).dom().contains(q) by {
                let k: int = choose|k: int| 0 <= k < new_entries.len() && new_entries[k].0@ == q;
                if k < mid.len() {
                    assert(new_entries[k] == mid[k]);
                }
            }
            assert forall|q: Seq<char>| #[trigger] mid_view.insert(name@, value).dom().contains(
                q,
            ) implies self.view().dom().contains(q) by {
                if q == name@ {
                    assert(new_entries[mid.len() as int].0@ == name@);
                } else {
                    let k: int = choose|k: int| 0 <= k < mid.len() && mid[k].0@ == q;
                    assert(new_entries[k] == mid[k]);
                }
            }
        }
        assert forall|q: Seq<char>| #[trigger] self.view().dom().contains(q) implies self.view()[q]
            == mid_view.insert(name@, value)[q] by {
            let k: int = choose|k: int| 0 <= k < new_entries.len() && new_entries[k].0@ == q;
            self.lemma_view_at(k);
            if q == name@ {
                self.lemma_view_at(mid.len() as int);
            } else {
                assert(k < mid.len());
                assert(new_entries[k] == mid[k]);
                let c: int = choose|c: int| 0 <= c < mid.len() && mid[c].0@ == q;
                assert(mid_view[q] == mid[c].1@);
                if c != k {
                    assert(new_entries[c] == mid[c]);
                    if c < k {
                        assert(new_entries[c].0@ != new_entries[k].0@);
                    } else {
                        assert(new_entries[k].0@ != new_entries[c].0@);
                    }
                }
            }
        }
        assert(self.view() == mid_view.insert(name@, value));
    }
}

/// Loads the sound in the file `file_name` holding `bytes`, which decoded to a
/// sound of `length_ms` whole milliseconds (`None` where the decoder could not
/// tell): it is added under its name, in place of any sound of that name, and
/// described for the `NEW_SOUNDS` event.
pub fn load_sound(
    lib: &mut SoundLibrary,
    file_name: &str,
    bytes: Vec<u8>,
    length_ms: Option<u128>,
) -> (r: NewSound)
    requires
        old(lib).well_formed(),
    ensures
        final(lib).well_formed(),
        r.name@ == sound_name_spec(file_name@),
        r.duration_ms == reported_length(length_ms),
        final(lib).view() == old(lib).view().insert(r.name@, bytes@),
{
    let duration_ms = sound_duration_ms(length_ms);
    let name = sound_name(file_name);
    lib.insert(name.as_str(), bytes);
    NewSound { name, duration_ms }
}

/// Unloads the sound of the removed file `file_name`; returns its name (for the
/// `REMOVE_SOUND` event) where such a sound was loaded.
pub fn unload_sound(lib: &mut SoundLibrary, file_name: &str) -> (r: Option<String>)
    requires
        old(lib).well_formed(),
    ensures
        final(lib).well_formed(),
        final(lib).view() == old(lib).view().remove(sound_name_spec(file_name@)),
        r is Some <==> old(lib).view().dom().contains(sound_name_spec(file_name@)),
        r is Some ==> r->0@ == sound_name_spec(file_name@),
{
    let name = sound_name(file_name);
    if lib.remove(name.as_str()) {
        Some(name)
    } else {
        None
    }
}

/// What the watcher of the sounds folder reports.
#[derive(Clone, Copy, Debug, PartialEq, Eq, Structural)]
pub enum WatchEventKind {
    /// A file was closed after being written.
    ClosedAfterWrite,
    /// Any other access.
    OtherAccess,
    /// A file was removed.
    RemovedFile,
    /// Any other removal.
    OtherRemove,
    /// Anything else.
    Other,
}

/// What the app does about a report of the watcher.
#[derive(Clone, Copy, Debug, PartialEq, Eq, Structural)]
pub enum WatchAction {
    /// Load the sounds in the reported files.
    Load,
    /// Unload the sounds of the reported files.
    Unload,
    Ignore,
}

/// Files closed after writing are loaded, removed files unloaded, and
/// everything else ignored.
pub fn watch_action(kind: WatchEventKind) -> (r: WatchAction)
    ensures
        r == match kind {
            WatchEventKind::ClosedAfterWrite => WatchAction::Load,
            WatchEventKind::RemovedFile => WatchAction::Unload,
            _ => WatchAction::Ignore,
        },
{
    match kind {
        WatchEventKind::ClosedAfterWrite => WatchAction::Load,
        WatchEventKind::RemovedFile => WatchAction::Unload,
        _ => WatchAction::Ignore,
    }
}

/// Once a file's sound is loaded, playing its name finds the file's bytes.
pub proof fn lemma_loaded_sound_is_found(
    before: Map<Seq<char>, Seq<u8>>,
    file_name: Seq<char>,
    bytes: Seq<u8>,
)
    ensures
        ({
            let after = before.insert(sound_name_spec(file_name), bytes);
            after.dom().contains(sound_name_spec(file_name)) && after[sound_name_spec(file_name)]
                == bytes
        }),
{
}

/// Once a file's sound is unloaded it is not found, and unloading it again
/// reports nothing; the other sounds stay as they were.
pub proof fn lemma_unloaded_sound_is_gone(before: Map<Seq<char>, Seq<u8>>, file_name: Seq<char>)
    ensures
        ({
            let name = sound_name_spec(file_name);
            let after = before.remove(name);
            &&& !after.dom().contains(name)
            &&& after.remove(name) == after
            &&& forall|other: Seq<char>|
                other != name && #[trigger] before.dom().contains(other) ==> after.dom().contains(
                    other,
                ) && after[other] == before[other]
        }),
{
    let name = sound_name_spec(file_name);
    assert(before.remove(name).remove(name) == before.remove(name));
}

} // verus!
