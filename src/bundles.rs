use vstd::prelude::*;

verus! {

/// The name shown for a note whose path has no file-name component.
pub const NOTE_BAD_NAME: &'static str = "<<error>>";

/// The name shown for a bundle whose path has no file-name component.
pub const BUNDLE_BAD_NAME: &'static str = "<<ERROR BUNDLE NAME>>";

/// The file-name component of a path, as the standard library's path parsing
/// on the target platform finds it.
pub uninterp spec fn file_name_of(path: Seq<char>) -> Option<Seq<char>>;

/// An optional string as an optional sequence of characters.
pub open spec fn opt_string_view(o: Option<String>) -> Option<Seq<char>> {
    match o {
        Some(s) => Some(s@),
        None => None,
    }
}

/// Relies on `std::path::Path::file_name`: the last normal component of the
/// path, if it has one. A path built from a `str` has UTF-8 components, so the
/// lossy conversion keeps every character.
#[verifier::external_body]
fn file_name(path: &str) -> (r: Option<String>)
    ensures
        opt_string_view(r) == file_name_of(path@),
{
    std::path::Path::new(path).file_name().map(|n| n.to_string_lossy().into_owned())
}

/// What is shown for a path: its file name where there is one, else `fallback`.
pub open spec fn shown_name(found: Option<Seq<char>>, fallback: Seq<char>) -> Seq<char> {
    match found {
        Some(n) => n,
        None => fallback,
    }
}

/// The name of the note stored at `path`.
pub open spec fn note_name(path: Seq<char>) -> Seq<char> {
    shown_name(file_name_of(path), NOTE_BAD_NAME@)
}

/// Picks the name to show from the file name found in a path, or `fallback`
/// where the path has none.
pub fn name_or(found: Option<String>, fallback: &str) -> (r: String)
    ensures
        r@ == shown_name(opt_string_view(found), fallback@),
{
    match found {
        Some(n) => n,
        None => fallback.to_owned(),
    }
}

/// One file's path and, once read, its text.
#[derive(Debug)]
pub struct Note {
    path: String,
    content: Option<String>,
}

/// What a note holds: where it lives and the text read from there, if any.
pub struct NoteView {
    pub path: Seq<char>,
    pub content: Option<Seq<char>>,
}

impl View for Note {
    type V = NoteView;

    closed spec fn view(&self) -> NoteView {
        NoteView { path: self.path@, content: opt_string_view(self.content) }
    }
}

impl Note {
    /// A note for the file at `path`, not read yet.
    pub fn new(path: String) -> (r: Note)
        ensures
            r@ == (NoteView { path: path@, content: None }),
    {
        Note { path, content: None }
    }

    /// Stores the outcome of reading the note's file: the text on success,
    /// replacing what was there; on failure the note is left as it was and
    /// the error is handed back.
    pub fn load<E>(&mut self, read: Result<String, E>) -> (r: Result<(), E>)
        ensures
            match read {
                Ok(s) => r is Ok && final(self)@ == (NoteView {
                    path: old(self)@.path,
                    content: Some(s@),
                }),
                Err(e) => r == Err::<(), E>(e) && final(self)@ == old(self)@,
            },
        no_unwind
    {
        match read {
            Ok(s) => {
                self.content = Some(s);
                Ok(())
            },
            Err(e) => Err(e),
        }
    }

    /// Whether the note's text has been read.
    pub fn is_loaded(&self) -> (r: bool)
        ensures
            r == self@.content is Some,
        no_unwind
    {
        match &self.content {
            Some(_) => true,
            None => false,
        }
    }

    /// The text read, if any; never reads by itself.
    pub fn get(&self) -> (r: Option<&str>)
        ensures
            opt_str_view(r) == self@.content,
    {
        match &self.content {
            Some(s) => Some(s.as_str()),
            None => None,
        }
    }

    /// The note's file name, or `NOTE_BAD_NAME` where its path has none.
    pub fn name(&self) -> (r: String)
        ensures
            r@ == note_name(self@.path),
            file_name_of(self@.path) is None ==> r@ == NOTE_BAD_NAME@,
    {
        name_or(file_name(self.path.as_str()), NOTE_BAD_NAME)
    }

    /// Where the note's file lives.
    pub fn path(&self) -> (r: &str)
        ensures
            r@ == self@.path,
    {
        self.path.as_str()
    }
}

/// An optional string slice as an optional sequence of characters.
pub open spec fn opt_str_view(o: Option<&str>) -> Option<Seq<char>> {
    match o {
        Some(s) => Some(s@),
        None => None,
    }
}

/// The note after a read was offered for it: a note not read yet takes the
/// text of a successful read; a note already read keeps its text, and a
/// failed or absent read changes nothing.
pub open spec fn after_read<E>(n: NoteView, read: Option<Result<String, E>>) -> NoteView {
    match read {
        Some(Ok(s)) => if n.content is None {
            NoteView { path: n.path, content: Some(s@) }
        } else {
            n
        },
        _ => n,
    }
}

/// The notes found by a scan, in the order given, none of them read yet.
pub open spec fn unread_notes(paths: Seq<Seq<char>>) -> Seq<NoteView> {
    paths.map_values(|p: Seq<char>| NoteView { path: p, content: None })
}

/// The paths of the entries of a directory listing that could be read, in order.
pub open spec fn listed_paths<E>(entries: Seq<Result<String, E>>) -> Seq<Seq<char>>
    decreases entries.len(),
{
    if entries.len() == 0 {
        Seq::empty()
    } else {
        let rest = listed_paths(entries.drop_last());
        match entries.last() {
            Ok(p) => rest.push(p@),
            Err(_) => rest,
        }
    }
}

/// A directory and the notes found in it.
#[derive(Debug)]
pub struct Bundle {
    path: String,
    notes: Vec<Note>,
}

/// What a bundle holds: its directory and its notes in scan order.
pub struct BundleView {
    pub path: Seq<char>,
    pub notes: Seq<NoteView>,
}

impl View for Bundle {
    type V = BundleView;

    closed spec fn view(&self) -> BundleView {
        BundleView { path: self.path@, notes: self.notes@.map_values(|n: Note| n@) }
    }
}

impl Bundle {
    /// The directory's name, or `BUNDLE_BAD_NAME` where its path has none.
    pub fn name(&self) -> (r: String)
        ensures
            r@ == shown_name(file_name_of(self@.path), BUNDLE_BAD_NAME@),
    {
        name_or(file_name(self.path.as_str()), BUNDLE_BAD_NAME)
    }

    /// How many notes the bundle holds.
    pub fn len(&self) -> (r: usize)
        ensures
            r == self@.notes.len(),
    {
        self.notes.len()
    }

    /// The path whose file has to be read before the note at `idx` can be
    /// shown: present exactly when `idx` is in bounds and that note has not
    /// been read yet.
    pub fn note_to_read(&self, idx: usize) -> (r: Option<String>)
        ensures
            match r {
                Some(p) => idx < self@.notes.len() && self@.notes[idx as int].content is None
                    && p@ == self@.notes[idx as int].path,
                None => idx >= self@.notes.len() || self@.notes[idx as int].content is Some,
            },
    {
        if idx < self.notes.len() && !self.notes[idx].is_loaded() {
            Some(self.notes[idx].path.clone())
        } else {
            None
        }
    }

    /// The note at `idx`, if in bounds, after offering it `read`, the outcome
    /// of reading its file. A note not read yet takes the text of a
    /// successful read; a failed read leaves it unread and is not passed on.
    /// A note that was read before keeps its text whatever is offered.
    pub fn get_note<E>(&mut self, idx: usize, read: Option<Result<String, E>>) -> (r: Option<&Note>)
        ensures
            final(self)@.path == old(self)@.path,
            final(self)@.notes.len() == old(self)@.notes.len(),
            forall|j: int|
                0 <= j < old(self)@.notes.len() && j != idx ==> #[trigger] final(self)@.notes[j]
                    == old(self)@.notes[j],
            idx < old(self)@.notes.len() ==> final(self)@.notes[idx as int] == after_read(
                old(self)@.notes[idx as int],
                read,
            ),
            idx < old(self)@.notes.len() && old(self)@.notes[idx as int].content is Some
                ==> final(self)@ == old(self)@,
            idx >= old(self)@.notes.len() ==> final(self)@ == old(self)@,
            match r {
                Some(n) => idx < old(self)@.notes.len() && n@ == final(self)@.notes[idx as int],
                None => idx >= old(self)@.notes.len(),
            },
        no_unwind
    {
        if idx < self.notes.len() && !self.notes[idx].is_loaded() {
            if let Some(res) = read {
                let _ = self.notes[idx].load(res);
            }
        }
        if idx < self.notes.len() {
            Some(&self.notes[idx])
        } else {
            None
        }
    }

    /// The bundle's directory.
    pub fn get_path(&self) -> (r: &str)
        ensures
            r@ == self@.path,
    {
        self.path.as_str()
    }

    /// The name of every note, in order; reads no file.
    pub fn get_note_names(&self) -> (r: Vec<String>)
        ensures
            r@.map_values(|s: String| s@) == note_names(self@),
    {
        let mut names: Vec<String> = Vec::new();
        let mut i: usize = 0;
        while i < self.notes.len()
            invariant
                i <= self.notes@.len(),
                names@.map_values(|s: String| s@) == note_names(self@).take(i as int),
            decreases self.notes@.len() - i,
        {
            let n = self.notes[i].name();
            assert(self@.notes[i as int] == self.notes@[i as int]@);
            let ghost prev = names@;
            names.push(n);
            assert(names@.map_values(|s: String| s@) =~= prev.map_values(|s: String| s@).push(n@));
            assert(note_names(self@).take(i + 1) =~= note_names(self@).take(i as int).push(n@));
            i = i + 1;
        }
        assert(note_names(self@).take(i as int) =~= note_names(self@));
        names
    }

    /// Hands over the notes, in order, giving up the bundle.
    pub fn into_notes(self) -> (r: Vec<Note>)
        ensures
            r@.map_values(|n: Note| n@) == self@.notes,
    {
        self.notes
    }
}

/// The names of a bundle's notes, in order.
pub open spec fn note_names(b: BundleView) -> Seq<Seq<char>> {
    b.notes.map_values(|n: NoteView| note_name(n.path))
}

/// Makes a bundle for one directory, either by creating the directory or by
/// scanning the entries already in it.
#[derive(Debug)]
pub struct BundleLoader {
    path: String,
}

impl View for BundleLoader {
    type V = Seq<char>;

    closed spec fn view(&self) -> Seq<char> {
        self.path@
    }
}

impl BundleLoader {
    /// A loader for the directory at `path`.
    pub fn new(path: &str) -> (r: BundleLoader)
        ensures
            r@ == path@,
    {
        BundleLoader { path: path.to_owned() }
    }

    /// The directory this loader works on.
    pub fn get_path(&self) -> (r: &str)
        ensures
            r@ == self@,
    {
        self.path.as_str()
    }

    /// An empty bundle for the directory, given the outcome of creating it
    /// (with any missing parents); a failure to create it is handed back.
    pub fn init<E>(self, created: Result<(), E>) -> (r: Result<Bundle, E>)
        ensures
            match created {
                Ok(_) => r matches Ok(b) && b@ == (BundleView { path: self@, notes: Seq::empty() }),
                Err(e) => r == Err::<Bundle, E>(e),
            },
    {
        match created {
            Ok(()) => {
                let b = Bundle { path: self.path, notes: Vec::new() };
                assert(b@.notes =~= Seq::empty());
                Ok(b)
            },
            Err(e) => Err(e),
        }
    }

    /// The bundle for the directory, given the outcome of listing its direct
    /// entries: one unread note for each entry that could be read, in the
    /// order listed, and none for an entry that failed. A failure to list the
    /// directory is handed back.
    pub fn load<E>(self, listing: Result<Vec<Result<String, E>>, E>) -> (r: Result<Bundle, E>)
        ensures
            match listing {
                Ok(entries) => r matches Ok(b) && b@ == (BundleView {
                    path: self@,
                    notes: unread_notes(listed_paths(entries@)),
                }) && forall|i: int|
                    0 <= i < b@.notes.len() ==> (#[trigger] b@.notes[i]).content is None,
                Err(e) => r == Err::<Bundle, E>(e),
            },
    {
        match listing {
            Ok(entries) => {
                let mut notes: Vec<Note> = Vec::new();
                let mut i: usize = 0;
                while i < entries.len()
                    invariant
                        i <= entries@.len(),
                        notes@.map_values(|n: Note| n@) == unread_notes(
                            listed_paths(entries@.take(i as int)),
                        ),
                    decreases entries@.len() - i,
                {
                    let ghost before = entries@.take(i as int);
                    let ghost after = entries@.take(i + 1);
                    assert(after.drop_last() =~= before);
                    assert(after.last() == entries@[i as int]);
                    assert(listed_paths(after) == match entries@[i as int] {
                        Ok(p) => listed_paths(before).push(p@),
                        Err(_) => listed_paths(before),
                    });
                    match &entries[i] {
                        Ok(p) => {
                            let note = Note::new(p.clone());
                            let ghost prev = notes@;
                            notes.push(note);
                            assert(notes@.map_values(|n: Note| n@) =~= prev.map_values(
                                |n: Note| n@,
                            ).push(note@));
                            assert(unread_notes(listed_paths(before).push(p@)) =~= unread_notes(
                                listed_paths(before),
                            ).push(note@));
                        },
                        Err(_) => {},
                    }
                    i = i + 1;
                }
                assert(entries@.take(i as int) =~= entries@);
                Ok(Bundle { path: self.path, notes })
            },
            Err(e) => Err(e),
        }
    }
}

/// Where every entry of a listing could be read, the scan keeps each of them,
/// in order.
pub proof fn lemma_listed_paths_all<E>(entries: Seq<Result<String, E>>)
    requires
        forall|i: int| 0 <= i < entries.len() ==> (#[trigger] entries[i]) is Ok,
    ensures
        listed_paths(entries) == entries.map_values(|e: Result<String, E>| e->Ok_0@),
    decreases entries.len(),
{
    if entries.len() > 0 {
        let rest = entries.drop_last();
        assert forall|i: int| 0 <= i < rest.len() implies (#[trigger] rest[i]) is Ok by {
            assert(rest[i] == entries[i]);
        }
        lemma_listed_paths_all(rest);
        assert(entries.last() is Ok);
        assert(entries.map_values(|e: Result<String, E>| e->Ok_0@) =~= rest.map_values(
            |e: Result<String, E>| e->Ok_0@,
        ).push(entries.last()->Ok_0@));
    }
}

/// A bundle made by scanning a directory lists one name for each entry that
/// could be read, the name of that entry's path, in the order listed; so the
/// list and the entries agree in length and as sets. Where every entry could
/// be read, that is every entry of the listing.
pub proof fn lemma_scanned_names<E>(path: Seq<char>, entries: Seq<Result<String, E>>)
    ensures
        ({
            let b = BundleView { path, notes: unread_notes(listed_paths(entries)) };
            let names = listed_paths(entries).map_values(|p: Seq<char>| note_name(p));
            &&& note_names(b) == names
            &&& note_names(b).len() == listed_paths(entries).len()
            &&& note_names(b).to_set() == names.to_set()
            &&& (forall|i: int| 0 <= i < entries.len() ==> (#[trigger] entries[i]) is Ok)
                ==> note_names(b).len() == entries.len()
        }),
{
    let b = BundleView { path, notes: unread_notes(listed_paths(entries)) };
    let names = listed_paths(entries).map_values(|p: Seq<char>| note_name(p));
    assert(note_names(b) =~= names);
    if forall|i: int| 0 <= i < entries.len() ==> (#[trigger] entries[i]) is Ok {
        lemma_listed_paths_all(entries);
    }
}

/// Once a note holds text, any read offered to it later leaves it as it is:
/// the text is read at most once and kept from then on.
pub proof fn lemma_read_is_kept<E>(
    n: NoteView,
    first: Option<Result<String, E>>,
    later: Option<Result<String, E>>,
)
    requires
        after_read(n, first).content is Some,
    ensures
        after_read(after_read(n, first), later) == after_read(n, first),
{
}

} // verus!
