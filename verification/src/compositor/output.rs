//! Display outputs: each is registered under an id made of its make and a
//! counter, one of them is primary, and they can be looked up or removed.
//! Floating-point values are held as the bit patterns of their `f64` values.

use vstd::prelude::*;
use vstd::string::*;
use crate::text::{decimal, same_text, to_decimal};

verus! {

#[derive(Debug, Clone, Copy, PartialEq, Eq, Hash, Structural)]
pub struct OutputHandle(pub u32);

impl OutputHandle {
    pub fn new(id: u32) -> (r: Self)
        ensures
            r.0 == id,
    {
        OutputHandle(id)
    }

    pub fn id(&self) -> (r: u32)
        ensures
            r == self.0,
    {
        self.0
    }
}

#[derive(Debug, Clone, Copy, PartialEq, Eq, Structural)]
pub enum ColorSpace {
    Srgb,
    DisplayP3,
    Rec2020,
}

/// A display. `refresh_rate_bits` and `scale_bits` are the bit patterns of
/// the `f64` refresh rate (Hz) and scale factor.
#[derive(Debug)]
pub struct OutputInfo {
    pub handle: OutputHandle,
    pub name: String,
    pub make: String,
    pub model: String,
    pub physical_size: (u32, u32),
    pub position: (i32, i32),
    pub resolution: (u32, u32),
    pub refresh_rate_bits: u64,
    pub scale_bits: u64,
    pub enabled: bool,
    pub primary: bool,
    pub hdr: bool,
    pub color_space: ColorSpace,
}

/// The bit pattern of the `f64` value 60.0.
pub const SIXTY_HZ: u64 = 0x404e_0000_0000_0000;

/// The bit pattern of the `f64` value 1.0.
pub const UNIT_SCALE: u64 = 0x3ff0_0000_0000_0000;

impl OutputInfo {
    /// Every field of the default output but its handle: a generic
    /// 1920 x 1080 display at 60 Hz named DP-1, 600 x 340 mm at the
    /// origin, scale 1, primary, enabled, without HDR, sRGB.
    pub open spec fn is_default_info(&self) -> bool {
        &&& self.name@ == "DP-1"@
        &&& self.make@ == "Generic"@
        &&& self.model@ == "Display"@
        &&& self.physical_size == (600u32, 340u32)
        &&& self.position == (0i32, 0i32)
        &&& self.resolution == (1920u32, 1080u32)
        &&& self.refresh_rate_bits == SIXTY_HZ
        &&& self.scale_bits == UNIT_SCALE
        &&& self.enabled && self.primary && !self.hdr
        &&& self.color_space == ColorSpace::Srgb
    }
}

impl Default for OutputInfo {
    /// A generic 1920 x 1080 display at 60 Hz named DP-1: primary, enabled, sRGB.
    fn default() -> (o: Self)
        ensures
            o.handle == OutputHandle(0),
            o.is_default_info(),
    {
        OutputInfo {
            handle: OutputHandle::new(0),
            name: String::from_str("DP-1"),
            make: String::from_str("Generic"),
            model: String::from_str("Display"),
            physical_size: (600, 340),
            position: (0, 0),
            resolution: (1920, 1080),
            refresh_rate_bits: SIXTY_HZ,
            scale_bits: UNIT_SCALE,
            enabled: true,
            primary: true,
            hdr: false,
            color_space: ColorSpace::Srgb,
        }
    }
}

#[derive(Debug, Clone, PartialEq, Eq, Hash)]
pub struct OutputId(pub String);

impl OutputId {
    pub fn new(s: &str) -> (r: Self)
        ensures
            r.0@ == s@,
    {
        OutputId(String::from_str(s))
    }
}

/// The id text of each entry.
pub open spec fn entry_ids(s: Seq<(OutputId, OutputInfo)>) -> Seq<Seq<char>> {
    s.map_values(|e: (OutputId, OutputInfo)| e.0.0@)
}

/// The info of each entry.
pub open spec fn entry_infos(s: Seq<(OutputId, OutputInfo)>) -> Seq<OutputInfo> {
    s.map_values(|e: (OutputId, OutputInfo)| e.1)
}

/// What is stored for `info` registered while the counter is `n`: the
/// same info with handle `n + 1`.
pub open spec fn stored_info(info: OutputInfo, n: u32) -> OutputInfo {
    OutputInfo { handle: OutputHandle((n + 1) as u32), ..info }
}

/// The id an output registered as number `n` with make `make` gets.
pub open spec fn output_id_text(make: Seq<char>, n: u32) -> Seq<char> {
    make + "-"@ + decimal(n as nat)
}

pub struct OutputManager {
    outputs: Vec<(OutputId, OutputInfo)>,
    primary_output: Option<OutputId>,
    next_id: u32,
}

impl OutputManager {
    /// The outputs with their ids, in order of registration.
    pub closed spec fn entries(&self) -> Seq<(OutputId, OutputInfo)> {
        self.outputs@
    }

    pub closed spec fn primary_view(&self) -> Option<Seq<char>> {
        match self.primary_output {
            Some(p) => Some(p.0@),
            None => None,
        }
    }

    pub closed spec fn next_id_view(&self) -> u32 {
        self.next_id
    }

    /// No two outputs share an id.
    pub open spec fn wf(&self) -> bool {
        entry_ids(self.entries()).no_duplicates()
    }

    /// A manager holding the default output, which is primary.
    pub fn new() -> (m: Self)
        ensures
            m.wf(),
            m.entries().len() == 1,
            m.entries()[0].0.0@ == output_id_text("Generic"@, 1),
            m.entries()[0].1.handle == OutputHandle(2),
            m.entries()[0].1.is_default_info(),
            m.primary_view() == Some(output_id_text("Generic"@, 1)),
            m.next_id_view() == 2,
    {
        let mut m = OutputManager { outputs: Vec::new(), primary_output: None, next_id: 1 };
        assert(entry_ids(m.outputs@).no_duplicates());
        let info = OutputInfo::default();
        let ghost given = info;
        assert(!entry_ids(m.entries()).contains(output_id_text("Generic"@, 1)));
        m.add_output(info);
        assert(entry_infos(m.entries())[0] == stored_info(given, 1));
        assert(m.entries()[0].1 == entry_infos(m.entries())[0]);
        m
    }

    fn index_of(&self, id: &str) -> (i: usize)
        requires
            self.wf(),
        ensures
            i <= self.entries().len(),
            i < self.entries().len() ==> entry_ids(self.entries())[i as int] == id@,
            i == self.entries().len() ==> !entry_ids(self.entries()).contains(id@),
    {
        let mut i: usize = 0;
        while i < self.outputs.len()
            invariant
                i <= self.outputs@.len(),
                forall|j: int| 0 <= j < i ==> entry_ids(self.outputs@)[j] != id@,
            decreases self.outputs@.len() - i,
        {
            if same_text(self.outputs[i].0.0.as_str(), id) {
                return i;
            }
            i += 1;
        }
        i
    }

    /// Register `info` under the id `<make>-<n>`, `n` the counter; its
    /// handle becomes the counter's next value. It becomes primary when it
    /// says so or when there is no primary yet. An output already under
    /// that id is replaced in place.
    pub fn add_output(&mut self, info: OutputInfo) -> (id: OutputId)
        requires
            old(self).wf(),
            old(self).next_id_view() < u32::MAX,
        ensures
            final(self).wf(),
            id.0@ == output_id_text(info.make@, old(self).next_id_view()),
            final(self).next_id_view() == old(self).next_id_view() + 1,
            final(self).primary_view() == if info.primary || old(self).primary_view() is None {
                Some(id.0@)
            } else {
                old(self).primary_view()
            },
            entry_ids(final(self).entries()).contains(id.0@),
            entry_ids(old(self).entries()).contains(id.0@) ==> entry_ids(final(self).entries())
                == entry_ids(old(self).entries()),
            forall|i: int|
                0 <= i < old(self).entries().len() && #[trigger] entry_ids(old(self).entries())[i]
                    == id.0@ ==> entry_infos(final(self).entries()) == entry_infos(old(self).entries()).update(
                    i,
                    stored_info(info, old(self).next_id_view()),
                ),
            !entry_ids(old(self).entries()).contains(id.0@) ==> entry_ids(final(self).entries())
                == entry_ids(old(self).entries()).push(id.0@) && entry_infos(final(self).entries())
                == entry_infos(old(self).entries()).push(stored_info(info, old(self).next_id_view())),
    {
        let mut text = String::from_str(info.make.as_str());
        text.append("-");
        let n = to_decimal(self.next_id as u64);
        text.append(n.as_str());
        let id = OutputId(text);
        self.next_id = self.next_id + 1;
        let ghost given = info;
        let mut info = info;
        info.handle = OutputHandle::new(self.next_id);
        assert(info == stored_info(given, old(self).next_id));
        if info.primary || self.primary_output.is_none() {
            self.primary_output = Some(OutputId(id.0.clone()));
        }
        let i = self.index_of(id.0.as_str());
        let entry = (OutputId(id.0.clone()), info);
        let ghost before = self.outputs@;
        if i < self.outputs.len() {
            self.outputs.set(i, entry);
            assert(entry_ids(self.outputs@) =~= entry_ids(before).update(i as int, id.0@));
            assert(entry_ids(self.outputs@) =~= entry_ids(before));
            assert(entry_infos(self.outputs@) =~= entry_infos(before).update(i as int, stored_info(given, old(self).next_id)));
            assert forall|k: int| 0 <= k < before.len() && #[trigger] entry_ids(before)[k] == id.0@ implies k == i by {
                if k != i {
                    assert(entry_ids(before)[k] != entry_ids(before)[i as int]);
                }
            }
        } else {
            self.outputs.push(entry);
            assert(entry_ids(self.outputs@) =~= entry_ids(before).push(id.0@));
            assert(entry_infos(self.outputs@) =~= entry_infos(before).push(stored_info(given, old(self).next_id)));
            assert forall|a: int, b: int| 0 <= a < b < entry_ids(self.outputs@).len() implies entry_ids(self.outputs@)[a]
                != entry_ids(self.outputs@)[b] by {
                if b == before.len() {
                    assert(entry_ids(before)[a] != id.0@);
                } else {
                    assert(entry_ids(before)[a] != entry_ids(before)[b]);
                }
            }
            assert(entry_ids(self.outputs@)[before.len() as int] == id.0@);
        }
        proof {
            if i < before.len() {
                assert(entry_ids(self.outputs@)[i as int] == id.0@);
            }
        }
        id
    }

    /// Forget the output `id`. If it was primary, the first registered
    /// output (looked at before the removal, so possibly `id` itself)
    /// becomes primary, or none when there are no outputs.
    pub fn remove_output(&mut self, id: &OutputId)
        requires
            old(self).wf(),
        ensures
            final(self).wf(),
            final(self).next_id_view() == old(self).next_id_view(),
            old(self).primary_view() == Some(id.0@) ==> final(self).primary_view() == if old(self).entries().len() == 0 {
                None
            } else {
                Some(entry_ids(old(self).entries())[0])
            },
            old(self).primary_view() != Some(id.0@) ==> final(self).primary_view() == old(self).primary_view(),
            !entry_ids(old(self).entries()).contains(id.0@) ==> final(self).entries() == old(self).entries(),
            forall|i: int|
                0 <= i < old(self).entries().len() && #[trigger] entry_ids(old(self).entries())[i]
                    == id.0@ ==> final(self).entries() == old(self).entries().remove(i),
    {
        let is_primary = match &self.primary_output {
            Some(p) => same_text(p.0.as_str(), id.0.as_str()),
            None => false,
        };
        if is_primary {
            self.primary_output = if self.outputs.len() == 0 {
                None
            } else {
                Some(OutputId(self.outputs[0].0.0.clone()))
            };
        }
        let i = self.index_of(id.0.as_str());
        if i < self.outputs.len() {
            let ghost before = self.outputs@;
            self.outputs.remove(i);
            proof {
                assert(entry_ids(self.outputs@) =~= entry_ids(before).remove(i as int));
                assert forall|a: int, b: int| 0 <= a < b < entry_ids(self.outputs@).len() implies entry_ids(self.outputs@)[a]
                    != entry_ids(self.outputs@)[b] by {
                    let a2 = if a < i { a } else { a + 1 };
                    let b2 = if b < i { b } else { b + 1 };
                    assert(entry_ids(before)[a2] != entry_ids(before)[b2]);
                }
                assert forall|k: int| 0 <= k < before.len() && #[trigger] entry_ids(before)[k] == id.0@ implies k == i by {
                    if k != i {
                        assert(entry_ids(before)[k] != entry_ids(before)[i as int]);
                    }
                }
            }
        } else {
            proof {
                assert forall|k: int| 0 <= k < self.outputs@.len() implies #[trigger] entry_ids(self.outputs@)[k] != id.0@ by {
                    assert(entry_ids(self.outputs@).contains(entry_ids(self.outputs@)[k]));
                }
            }
        }
    }

    /// The output registered under `id`, if any.
    pub fn get_output(&self, id: &OutputId) -> (r: Option<&OutputInfo>)
        requires
            self.wf(),
        ensures
            match r {
                Some(o) => exists|i: int|
                    0 <= i < self.entries().len() && entry_ids(self.entries())[i] == id.0@
                        && self.entries()[i].1 == *o,
                None => !entry_ids(self.entries()).contains(id.0@),
            },
    {
        let i = self.index_of(id.0.as_str());
        if i < self.outputs.len() {
            Some(&self.outputs[i].1)
        } else {
            None
        }
    }

    /// Every output, in order of registration.
    pub fn get_all_outputs(&self) -> (r: Vec<&OutputInfo>)
        ensures
            r@.len() == self.entries().len(),
            forall|i: int| 0 <= i < r@.len() ==> *r@[i] == #[trigger] self.entries()[i].1,
    {
        let mut r: Vec<&OutputInfo> = Vec::new();
        let mut i: usize = 0;
        while i < self.outputs.len()
            invariant
                i <= self.outputs@.len(),
                r@.len() == i,
                forall|j: int| 0 <= j < i ==> *r@[j] == #[trigger] self.outputs@[j].1,
            decreases self.outputs@.len() - i,
        {
            r.push(&self.outputs[i].1);
            i += 1;
        }
        r
    }

    /// The primary output, when there is one and it is registered.
    pub fn get_primary(&self) -> (r: Option<&OutputInfo>)
        requires
            self.wf(),
        ensures
            match r {
                Some(o) => self.primary_view() matches Some(p) && exists|i: int|
                    0 <= i < self.entries().len() && entry_ids(self.entries())[i] == p
                        && self.entries()[i].1 == *o,
                None => match self.primary_view() {
                    Some(p) => !entry_ids(self.entries()).contains(p),
                    None => true,
                },
            },
    {
        match &self.primary_output {
            Some(p) => self.get_output(p),
            None => None,
        }
    }
}

impl Default for OutputManager {
    fn default() -> (m: Self)
        ensures
            m.wf(),
            m.entries().len() == 1,
            m.entries()[0].0.0@ == output_id_text("Generic"@, 1),
            m.entries()[0].1.handle == OutputHandle(2),
            m.entries()[0].1.is_default_info(),
            m.primary_view() == Some(output_id_text("Generic"@, 1)),
            m.next_id_view() == 2,
    {
        Self::new()
    }
}

} // verus!
