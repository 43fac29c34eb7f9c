//! Bundled assets: models, textures and shader sources, looked up by the
//! path they have in the engine's resource directory. The application
//! registers each asset's content once at start-up (it reads the files);
//! each accessor then returns the asset at its fixed path.

use vstd::prelude::*;

verus! {

/// The content registered for `path`: the first entry with that path.
pub open spec fn lookup<T>(entries: Seq<(Seq<char>, T)>, path: Seq<char>) -> Option<T>
    decreases entries.len(),
{
    if entries.len() == 0 {
        None
    } else if entries[0].0 == path {
        Some(entries[0].1)
    } else {
        lookup(entries.drop_first(), path)
    }
}

/// The entries after registering `content` at `path`: the first entry with
/// that path gets the new content, or a new entry is added at the end.
pub open spec fn register<T>(entries: Seq<(Seq<char>, T)>, path: Seq<char>, content: T) -> Seq<(Seq<char>, T)>
    decreases entries.len(),
{
    if entries.len() == 0 {
        seq![(path, content)]
    } else if entries[0].0 == path {
        entries.update(0, (path, content))
    } else {
        seq![entries[0]] + register(entries.drop_first(), path, content)
    }
}

/// After registering content at a path, looking that path up gives the
/// content, and every other path gives what it gave before.
pub proof fn lemma_lookup_after_register<T>(entries: Seq<(Seq<char>, T)>, path: Seq<char>, content: T, other: Seq<char>)
    ensures
        lookup(register(entries, path, content), path) == Some(content),
        other != path ==> lookup(register(entries, path, content), other) == lookup(entries, other),
    decreases entries.len(),
{
    let r = register(entries, path, content);
    if entries.len() == 0 {
        assert(r.drop_first() =~= entries);
    } else if entries[0].0 == path {
        assert(r.drop_first() =~= entries.drop_first());
    } else {
        lemma_lookup_after_register(entries.drop_first(), path, content, other);
        assert(r.drop_first() =~= register(entries.drop_first(), path, content));
    }
}

/// Binary assets as paths and bytes.
pub open spec fn binary_view(v: Seq<(String, Vec<u8>)>) -> Seq<(Seq<char>, Seq<u8>)> {
    v.map_values(|e: (String, Vec<u8>)| (e.0@, e.1@))
}

/// Text assets as paths and characters.
pub open spec fn text_view(v: Seq<(String, String)>) -> Seq<(Seq<char>, Seq<char>)> {
    v.map_values(|e: (String, String)| (e.0@, e.1@))
}

/// An optional byte slice, as bytes.
pub open spec fn bytes_view(r: Option<&[u8]>) -> Option<Seq<u8>> {
    match r {
        Some(b) => Some(b@),
        None => None,
    }
}

/// An optional string slice, as characters.
pub open spec fn chars_view(r: Option<&str>) -> Option<Seq<char>> {
    match r {
        Some(s) => Some(s@),
        None => None,
    }
}

/// The assets registered by the application.
pub struct ResourceStore {
    binary: Vec<(String, Vec<u8>)>,
    text: Vec<(String, String)>,
}

impl ResourceStore {
    /// The binary assets, by path.
    pub closed spec fn binary_entries(&self) -> Seq<(Seq<char>, Seq<u8>)> {
        binary_view(self.binary@)
    }

    /// The text assets, by path.
    pub closed spec fn text_entries(&self) -> Seq<(Seq<char>, Seq<char>)> {
        text_view(self.text@)
    }

    /// The bytes registered at `path`.
    pub open spec fn binary_asset(&self, path: Seq<char>) -> Option<Seq<u8>> {
        lookup(self.binary_entries(), path)
    }

    /// The text registered at `path`.
    pub open spec fn text_asset(&self, path: Seq<char>) -> Option<Seq<char>> {
        lookup(self.text_entries(), path)
    }

    /// A store with no asset.
    pub fn new() -> (r: Self)
        ensures
            r.binary_entries().len() == 0,
            r.text_entries().len() == 0,
    {
        let r = ResourceStore { binary: Vec::new(), text: Vec::new() };
        assert(r.binary_entries() =~= Seq::empty());
        assert(r.text_entries() =~= Seq::empty());
        r
    }

    /// Registers the bytes of the binary asset at `path`, replacing what was there.
    pub fn add_binary(&mut self, path: &str, bytes: Vec<u8>)
        ensures
            final(self).binary_entries() == register(old(self).binary_entries(), path@, bytes@),
            final(self).text_entries() == old(self).text_entries(),
    {
        let ghost e = old(self).binary_entries();
        let wanted: String = path.to_owned();
        let n = self.binary.len();
        let mut i: usize = 0;
        while i < n
            invariant
                n == self.binary@.len(),
                self.binary@ == old(self).binary@,
                self.text@ == old(self).text@,
                e == binary_view(self.binary@),
                wanted@ == path@,
                0 <= i <= n,
                forall|j: int| 0 <= j < i ==> e[j].0 != path@,
            decreases n - i,
        {
            if self.binary[i].0 == wanted {
                self.binary[i].1 = bytes;
                proof { lemma_register_at(e, path@, bytes@, i as int); }
                assert(binary_view(self.binary@) =~= e.update(i as int, (path@, bytes@)));
                return;
            }
            i = i + 1;
        }
        self.binary.push((wanted, bytes));
        proof { lemma_register_at(e, path@, bytes@, n as int); }
        assert(binary_view(self.binary@) =~= e.push((path@, bytes@)));
    }

    /// Registers the text of the text asset at `path`, replacing what was there.
    pub fn add_text(&mut self, path: &str, text: String)
        ensures
            final(self).text_entries() == register(old(self).text_entries(), path@, text@),
            final(self).binary_entries() == old(self).binary_entries(),
    {
        let ghost e = old(self).text_entries();
        let wanted: String = path.to_owned();
        let n = self.text.len();
        let mut i: usize = 0;
        while i < n
            invariant
                n == self.text@.len(),
                self.text@ == old(self).text@,
                self.binary@ == old(self).binary@,
                e == text_view(self.text@),
                wanted@ == path@,
                0 <= i <= n,
                forall|j: int| 0 <= j < i ==> e[j].0 != path@,
            decreases n - i,
        {
            if self.text[i].0 == wanted {
                self.text[i].1 = text;
                proof { lemma_register_at(e, path@, text@, i as int); }
                assert(text_view(self.text@) =~= e.update(i as int, (path@, text@)));
                return;
            }
            i = i + 1;
        }
        self.text.push((wanted, text));
        proof { lemma_register_at(e, path@, text@, n as int); }
        assert(text_view(self.text@) =~= e.push((path@, text@)));
    }

    /// The bytes registered at `path`, if any.
    pub fn binary(&self, path: &str) -> (r: Option<&[u8]>)
        ensures
            bytes_view(r) == self.binary_asset(path@),
    {
        let ghost e = self.binary_entries();
        let wanted: String = path.to_owned();
        let n = self.binary.len();
        let mut i: usize = 0;
        assert(e.skip(0) =~= e);
        while i < n
            invariant
                n == self.binary@.len(),
                e == binary_view(self.binary@),
                wanted@ == path@,
                0 <= i <= n,
                lookup(e, path@) == lookup(e.skip(i as int), path@),
            decreases n - i,
        {
            assert(e.skip(i as int).drop_first() =~= e.skip(i + 1));
            if self.binary[i].0 == wanted {
                return Some(self.binary[i].1.as_slice());
            }
            i = i + 1;
        }
        None
    }

    /// The text registered at `path`, if any.
    pub fn text(&self, path: &str) -> (r: Option<&str>)
        ensures
            chars_view(r) == self.text_asset(path@),
    {
        let ghost e = self.text_entries();
        let wanted: String = path.to_owned();
        let n = self.text.len();
        let mut i: usize = 0;
        assert(e.skip(0) =~= e);
        while i < n
            invariant
                n == self.text@.len(),
                e == text_view(self.text@),
                wanted@ == path@,
                0 <= i <= n,
                lookup(e, path@) == lookup(e.skip(i as int), path@),
            decreases n - i,
        {
            assert(e.skip(i as int).drop_first() =~= e.skip(i + 1));
            if self.text[i].0 == wanted {
                return Some(self.text[i].1.as_str());
            }
            i = i + 1;
        }
        None
    }
}

/// Registering at a path whose first occurrence is at `i` (or that does not
/// occur, with `i` the length) updates or extends the entries there.
pub proof fn lemma_register_at<T>(e: Seq<(Seq<char>, T)>, path: Seq<char>, content: T, i: int)
    requires
        0 <= i <= e.len(),
        forall|j: int| 0 <= j < i ==> e[j].0 != path,
        i < e.len() ==> e[i].0 == path,
    ensures
        register(e, path, content) == if i < e.len() {
            e.update(i, (path, content))
        } else {
            e.push((path, content))
        },
    decreases i,
{
    if e.len() == 0 {
        assert(register(e, path, content) =~= e.push((path, content)));
    } else if i == 0 {
    } else {
        lemma_register_at(e.drop_first(), path, content, i - 1);
        if i < e.len() {
            assert(register(e, path, content) =~= e.update(i, (path, content)));
        } else {
            assert(register(e, path, content) =~= e.push((path, content)));
        }
    }
}

} // verus!
