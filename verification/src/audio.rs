//! Audio clips: encoded sound data under a name. Decoding and playback are
//! done by the audio engine around the library.

use vstd::prelude::*;

verus! {

/// A named clip of encoded sound data.
pub struct AudioClip {
    pub name: String,
    data: Vec<u8>,
}

impl View for AudioClip {
    type V = (Seq<char>, Seq<u8>);

    closed spec fn view(&self) -> (Seq<char>, Seq<u8>) {
        (self.name@, self.data@)
    }
}

impl AudioClip {
    /// A clip holding a copy of `data` under the name `name`.
    pub fn from_resource(data: &[u8], name: &str) -> (r: Self)
        ensures
            r@ == (name@, data@),
    {
        AudioClip { name: name.to_owned(), data: vstd::slice::slice_to_vec(data) }
    }

    /// The clip's encoded sound data.
    pub fn data(&self) -> (r: &[u8])
        ensures
            r@ == self@.1,
    {
        self.data.as_slice()
    }
}

/// No two clips share a name.
pub open spec fn names_unique(clips: Seq<AudioClip>) -> bool {
    forall|i: int, j: int| 0 <= i < j < clips.len() ==> clips[i]@.0 != clips[j]@.0
}

/// The index of the clip named `name`, if there is one (the first, if several are).
pub fn find_clip(clips: &Vec<AudioClip>, name: &str) -> (r: Option<usize>)
    ensures
        match r {
            Some(i) => i < clips@.len() && clips@[i as int]@.0 == name@
                && forall|j: int| 0 <= j < i ==> clips@[j]@.0 != name@,
            None => forall|j: int| 0 <= j < clips@.len() ==> clips@[j]@.0 != name@,
        },
{
    let wanted: String = name.to_owned();
    let n = clips.len();
    let mut i: usize = 0;
    while i < n
        invariant
            n == clips@.len(),
            0 <= i <= n,
            wanted@ == name@,
            forall|j: int| 0 <= j < i ==> clips@[j]@.0 != name@,
        decreases n - i,
    {
        if clips[i].name == wanted {
            return Some(i);
        }
        i = i + 1;
    }
    None
}

/// Adds `clip` unless a clip of the same name is already there; says whether
/// it was added. Clip names stay unique.
pub fn add_audio(clips: &mut Vec<AudioClip>, clip: AudioClip) -> (r: bool)
    ensures
        r == forall|j: int| 0 <= j < old(clips)@.len() ==> old(clips)@[j]@.0 != clip@.0,
        r ==> final(clips)@ == old(clips)@.push(clip),
        !r ==> final(clips)@ == old(clips)@,
        names_unique(old(clips)@) ==> names_unique(final(clips)@),
{
    match find_clip(clips, clip.name.as_str()) {
        Some(i) => {
            assert(!(forall|j: int| 0 <= j < old(clips)@.len() ==> old(clips)@[j]@.0 != clip@.0)) by {
                assert(old(clips)@[i as int]@.0 == clip@.0);
            }
            false
        },
        None => {
            clips.push(clip);
            true
        },
    }
}

} // verus!
