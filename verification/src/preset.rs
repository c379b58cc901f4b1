//! Named presets: where the description of a stream comes from.
//!
//! Presets are kept by name. Storing a preset under a name that is taken
//! replaces the preset that had it.

use vstd::prelude::*;
use crate::descriptor::SessionDescriptor;
use crate::text::same_text;

verus! {

/// A named source of a stream.
#[derive(Debug, PartialEq)]
pub struct Preset {
    pub name: String,
    /// A session description as text.
    pub raw_sdp: Option<String>,
    /// Path of a file that holds a session description.
    pub local_sdp_file: Option<String>,
    /// Address from which a session description can be fetched.
    pub sdp_url: Option<String>,
    /// The stream itself.
    pub custom_stream: Option<SessionDescriptor>,
}

/// A text that may be missing, as plain values.
pub open spec fn text_view(text: Option<String>) -> Option<Seq<char>> {
    match text {
        Some(s) => Some(s@),
        None => None,
    }
}

/// A preset as plain values.
pub struct PresetModel {
    pub name: Seq<char>,
    pub raw_sdp: Option<Seq<char>>,
    pub local_sdp_file: Option<Seq<char>>,
    pub sdp_url: Option<Seq<char>>,
    pub custom_stream: Option<SessionDescriptor>,
}

impl View for Preset {
    type V = PresetModel;

    open spec fn view(&self) -> PresetModel {
        PresetModel {
            name: self.name@,
            raw_sdp: text_view(self.raw_sdp),
            local_sdp_file: text_view(self.local_sdp_file),
            sdp_url: text_view(self.sdp_url),
            custom_stream: self.custom_stream,
        }
    }
}

/// Which of its sources a preset is played from.
#[derive(Debug, Clone, Copy, PartialEq, Eq, Structural)]
pub enum PresetSource {
    /// Fetch the session description from `sdp_url`.
    SdpUrl,
    /// Read the session description from `local_sdp_file`.
    LocalSdpFile,
    /// Play `custom_stream`.
    CustomStream,
    /// The preset names none of these: there is nothing to play.
    Nothing,
}

/// The source that a preset is played from: the address if it has one,
/// else the file, else the stream.
pub open spec fn source_of(preset: PresetModel) -> PresetSource {
    if preset.sdp_url is Some {
        PresetSource::SdpUrl
    } else if preset.local_sdp_file is Some {
        PresetSource::LocalSdpFile
    } else if preset.custom_stream is Some {
        PresetSource::CustomStream
    } else {
        PresetSource::Nothing
    }
}

fn clone_text(text: &Option<String>) -> (copy: Option<String>)
    ensures
        text_view(copy) == text_view(*text),
{
    match text {
        Some(s) => Some(s.clone()),
        None => None,
    }
}

impl Clone for Preset {
    fn clone(&self) -> (copy: Self)
        ensures
            copy@ == self@,
    {
        Preset {
            name: self.name.clone(),
            raw_sdp: clone_text(&self.raw_sdp),
            local_sdp_file: clone_text(&self.local_sdp_file),
            sdp_url: clone_text(&self.sdp_url),
            custom_stream: self.custom_stream,
        }
    }
}

impl Preset {
    /// The source that the preset is played from.
    pub fn source(&self) -> (source: PresetSource)
        ensures
            source == source_of(self@),
    {
        if self.sdp_url.is_some() {
            PresetSource::SdpUrl
        } else if self.local_sdp_file.is_some() {
            PresetSource::LocalSdpFile
        } else if self.custom_stream.is_some() {
            PresetSource::CustomStream
        } else {
            PresetSource::Nothing
        }
    }
}

/// Whether a preset with this name stands at position `i`.
pub open spec fn named_at(entries: Seq<Preset>, name: Seq<char>, i: int) -> bool {
    0 <= i < entries.len() && entries[i].name@ == name
}

/// Whether no name is taken twice.
pub open spec fn names_differ(entries: Seq<Preset>) -> bool {
    forall|i: int, j: int| 0 <= i < j < entries.len() ==> entries[i].name@ != entries[j].name@
}

/// The presets of a list without repeated names, by name.
pub open spec fn by_name(entries: Seq<Preset>) -> Map<Seq<char>, PresetModel> {
    Map::new(
        |name: Seq<char>| exists|i: int| named_at(entries, name, i),
        |name: Seq<char>| entries[choose|i: int| named_at(entries, name, i)]@,
    )
}

proof fn lemma_by_name_at(entries: Seq<Preset>, i: int)
    requires
        names_differ(entries),
        0 <= i < entries.len(),
    ensures
        by_name(entries).contains_key(entries[i].name@),
        by_name(entries)[entries[i].name@] == entries[i]@,
{
    let name = entries[i].name@;
    assert(named_at(entries, name, i));
    let k = choose|k: int| named_at(entries, name, k);
    assert(named_at(entries, name, k));
    if k < i {
        assert(entries[k].name@ != entries[i].name@);
    }
    if i < k {
        assert(entries[i].name@ != entries[k].name@);
    }
}

proof fn lemma_by_name_insert(before: Seq<Preset>, after: Seq<Preset>, preset: Preset, at: int)
    requires
        names_differ(before),
        0 <= at < after.len(),
        after[at] == preset,
        after.len() == before.len() || (after.len() == before.len() + 1 && at == before.len()),
        forall|j: int| 0 <= j < before.len() && j != at ==> after[j] == before[j],
        forall|j: int| 0 <= j < before.len() && j != at ==> before[j].name@ != preset.name@,
        at < before.len() ==> before[at].name@ == preset.name@,
    ensures
        names_differ(after),
        by_name(after) == by_name(before).insert(preset.name@, preset@),
{
    let name = preset.name@;
    assert(names_differ(after)) by {
        assert forall|i: int, j: int| 0 <= i < j < after.len() implies after[i].name@
            != after[j].name@ by {
            if i != at && j != at {
                assert(before[i].name@ != before[j].name@);
            }
        }
    }
    let want = by_name(before).insert(name, preset@);
    assert forall|k: Seq<char>| by_name(after).contains_key(k) <==> want.contains_key(k) by {
        if by_name(after).contains_key(k) && k != name {
            let j = choose|j: int| named_at(after, k, j);
            assert(named_at(before, k, j));
        }
        if by_name(before).contains_key(k) && k != name {
            let j = choose|j: int| named_at(before, k, j);
            assert(named_at(after, k, j));
        }
        if k == name {
            assert(named_at(after, k, at));
        }
    }
    assert forall|k: Seq<char>| by_name(after).contains_key(k) implies by_name(after)[k]
        == want[k] by {
        let j = choose|j: int| named_at(after, k, j);
        assert(named_at(after, k, j));
        lemma_by_name_at(after, j);
        if k != name {
            assert(named_at(before, k, j));
            lemma_by_name_at(before, j);
        } else {
            lemma_by_name_at(after, at);
        }
    }
    assert(by_name(after) =~= want);
}

/// Presets by name.
pub struct Presets {
    entries: Vec<Preset>,
}

impl View for Presets {
    type V = Map<Seq<char>, PresetModel>;

    closed spec fn view(&self) -> Map<Seq<char>, PresetModel> {
        by_name(self.entries@)
    }
}

impl Presets {
    /// No name is taken twice.
    pub closed spec fn well_formed(&self) -> bool {
        names_differ(self.entries@)
    }

    /// No presets.
    pub fn new() -> (presets: Self)
        ensures
            presets.well_formed(),
            presets@ == Map::<Seq<char>, PresetModel>::empty(),
    {
        let presets = Presets { entries: Vec::new() };
        assert(presets@ =~= Map::<Seq<char>, PresetModel>::empty());
        presets
    }

    fn position(&self, name: &str) -> (found: Option<usize>)
        ensures
            match found {
                Some(i) => named_at(self.entries@, name@, i as int),
                None => forall|i: int| !named_at(self.entries@, name@, i),
            },
    {
        let mut i: usize = 0;
        while i < self.entries.len()
            invariant
                i <= self.entries@.len(),
                forall|j: int| 0 <= j < i ==> !named_at(self.entries@, name@, j),
            decreases self.entries@.len() - i,
        {
            if same_text(self.entries[i].name.as_str(), name) {
                return Some(i);
            }
            i = i + 1;
        }
        None
    }

    /// The preset with the given name.
    pub fn get(&self, name: &str) -> (preset: Option<&Preset>)
        requires
            self.well_formed(),
        ensures
            match preset {
                Some(p) => self@.contains_key(name@) && self@[name@] == p@,
                None => !self@.contains_key(name@),
            },
    {
        match self.position(name) {
            Some(i) => {
                proof {
                    lemma_by_name_at(self.entries@, i as int);
                }
                Some(&self.entries[i])
            },
            None => None,
        }
    }

    /// Stores a preset under its name, in place of the preset that had the
    /// name before, if there was one.
    pub fn insert(&mut self, preset: Preset)
        requires
            old(self).well_formed(),
        ensures
            final(self).well_formed(),
            final(self)@ == old(self)@.insert(preset.name@, preset@),
    {
        let ghost before = self.entries@;
        let ghost stored = preset;
        match self.position(preset.name.as_str()) {
            Some(i) => {
                self.entries.set(i, preset);
                proof {
                    assert forall|j: int| 0 <= j < before.len() && j != i implies before[j].name@
                        != stored.name@ by {
                        if j < i {
                            assert(before[j].name@ != before[i as int].name@);
                        } else {
                            assert(before[i as int].name@ != before[j].name@);
                        }
                    }
                    lemma_by_name_insert(before, self.entries@, stored, i as int);
                }
            },
            None => {
                self.entries.push(preset);
                proof {
                    assert forall|j: int| 0 <= j < before.len() implies before[j].name@
                        != stored.name@ by {
                        assert(!named_at(before, stored.name@, j));
                    }
                    lemma_by_name_insert(before, self.entries@, stored, before.len() as int);
                }
            },
        }
    }

    /// The presets of a list, a later one in place of an earlier one with
    /// the same name.
    pub fn from_list(list: Vec<Preset>) -> (presets: Self)
        ensures
            presets.well_formed(),
            presets@ == listed(list@, list@.len() as int),
    {
        let mut presets: Presets = Presets::new();
        let mut i: usize = 0;
        while i < list.len()
            invariant
                i <= list@.len(),
                presets.well_formed(),
                presets@ == listed(list@, i as int),
            decreases list@.len() - i,
        {
            presets.insert(list[i].clone());
            i = i + 1;
        }
        presets
    }

    /// The presets as a list, each name once.
    pub fn to_list(&self) -> (list: Vec<Preset>)
        requires
            self.well_formed(),
        ensures
            forall|i: int|
                0 <= i < list@.len() ==> self@.contains_key(#[trigger] list@[i].name@)
                    && self@[list@[i].name@] == list@[i]@,
            forall|name: Seq<char>|
                self@.contains_key(name) ==> exists|i: int| named_at(list@, name, i),
            forall|i: int, j: int| 0 <= i < j < list@.len() ==> list@[i].name@ != list@[j].name@,
    {
        let mut list: Vec<Preset> = Vec::new();
        let mut i: usize = 0;
        while i < self.entries.len()
            invariant
                i <= self.entries@.len(),
                list@.len() == i,
                forall|j: int| 0 <= j < i ==> #[trigger] list@[j]@ == self.entries@[j]@,
            decreases self.entries@.len() - i,
        {
            list.push(self.entries[i].clone());
            i = i + 1;
        }
        proof {
            assert forall|i: int| 0 <= i < list@.len() implies self@.contains_key(
                #[trigger] list@[i].name@,
            ) && self@[list@[i].name@] == list@[i]@ by {
                assert(list@[i]@ == self.entries@[i]@);
                lemma_by_name_at(self.entries@, i);
            }
            assert forall|name: Seq<char>| self@.contains_key(name) implies exists|i: int|
                named_at(list@, name, i) by {
                let k = choose|k: int| named_at(self.entries@, name, k);
                assert(list@[k]@ == self.entries@[k]@);
                assert(named_at(list@, name, k));
            }
            assert forall|i: int, j: int| 0 <= i < j < list@.len() implies list@[i].name@
                != list@[j].name@ by {
                assert(list@[i]@ == self.entries@[i]@);
                assert(list@[j]@ == self.entries@[j]@);
            }
        }
        list
    }
}

/// The presets of the first `n` entries of a list, by name: a later one in
/// place of an earlier one with the same name.
pub open spec fn listed(list: Seq<Preset>, n: int) -> Map<Seq<char>, PresetModel>
    decreases n,
{
    if n <= 0 {
        Map::empty()
    } else {
        listed(list, n - 1).insert(list[n - 1].name@, list[n - 1]@)
    }
}

} // verus!
