//! Which managers are installed: the order in which they are probed and what
//! the answers add up to. The probing itself is the caller's work.

use vstd::prelude::*;
use crate::text::texts;

verus! {

/// The managers in the order in which they are probed: the system managers by
/// priority, then the managers that may stand side by side.
pub const PROBE_ORDER: [&'static str; 11] = [
    "paru", "apt", "dnf", "zypper", "apk", "flatpak", "snap", "pipx", "npm", "rustup", "brew",
];

/// How many entries at the front of the probe order are system managers, of
/// which a host has one.
pub const SYSTEM_COUNT: usize = 5;

/// A detection in progress: the next candidate to probe and the managers
/// found so far.
#[derive(Debug)]
pub struct Detection {
    /// Position in the probe order of the next candidate.
    pub stage: usize,
    /// The managers found so far, in probe order.
    pub found: Vec<String>,
}

/// A detection with its texts as sequences of characters.
pub ghost struct DetectionView {
    pub stage: int,
    pub found: Seq<Seq<char>>,
}

impl View for Detection {
    type V = DetectionView;

    open spec fn view(&self) -> DetectionView {
        DetectionView { stage: self.stage as int, found: texts(self.found@) }
    }
}

/// The name at a position of the probe order.
pub open spec fn candidate(at: int) -> Seq<char> {
    PROBE_ORDER@[at]@
}

/// The candidate to probe next, if the detection is not over.
pub open spec fn next_candidate(detection: DetectionView) -> Option<Seq<char>> {
    if 0 <= detection.stage < PROBE_ORDER@.len() {
        Some(candidate(detection.stage))
    } else {
        None
    }
}

/// The detection after the answer for its next candidate. A candidate that
/// is present is added. The first system manager that is present ends the
/// probing of system managers; every other manager is probed in turn.
pub open spec fn record_step(detection: DetectionView, present: bool) -> DetectionView {
    if !(0 <= detection.stage < PROBE_ORDER@.len()) {
        detection
    } else {
        DetectionView {
            stage: if present && detection.stage < SYSTEM_COUNT {
                SYSTEM_COUNT as int
            } else {
                detection.stage + 1
            },
            found: if present {
                detection.found.push(candidate(detection.stage))
            } else {
                detection.found
            },
        }
    }
}

impl Detection {
    /// A detection that has probed nothing yet.
    pub fn new() -> (detection: Self)
        ensures
            detection@ == (DetectionView { stage: 0, found: Seq::empty() }),
    {
        let detection = Detection { stage: 0, found: Vec::new() };
        assert(detection@.found =~= Seq::<Seq<char>>::empty());
        detection
    }

    /// The candidate to probe next, or nothing when the detection is over.
    pub fn next_probe(&self) -> (name: Option<&'static str>)
        ensures
            match name {
                Some(n) => next_candidate(self@) == Some(n@),
                None => next_candidate(self@) is None,
            },
    {
        if self.stage < PROBE_ORDER.len() {
            Some(PROBE_ORDER[self.stage])
        } else {
            None
        }
    }

    /// Records whether the candidate that was probed is present.
    pub fn record(&mut self, present: bool)
        ensures
            final(self)@ == record_step(old(self)@, present),
    {
        if self.stage >= PROBE_ORDER.len() {
            return;
        }
        if present {
            self.found.push(PROBE_ORDER[self.stage].to_owned());
            assert(texts(self.found@) =~= texts(old(self).found@).push(
                candidate(old(self).stage as int),
            ));
        }
        if present && self.stage < SYSTEM_COUNT {
            self.stage = SYSTEM_COUNT;
        } else {
            self.stage = self.stage + 1;
        }
    }

    /// The managers found, once the detection is over or given up.
    pub fn into_found(self) -> (found: Vec<String>)
        ensures
            texts(found@) == self@.found,
    {
        self.found
    }
}

/// The answer for the candidate at a position; a candidate without an answer
/// counts as absent.
pub open spec fn answer(present: Seq<bool>, at: int) -> bool {
    0 <= at < present.len() && present[at]
}

/// The one system manager that is reported: the first present one from
/// position `from` on, if any.
pub open spec fn system_pick(present: Seq<bool>, from: int) -> Seq<Seq<char>>
    decreases SYSTEM_COUNT - from,
{
    if from < 0 || from >= SYSTEM_COUNT {
        Seq::empty()
    } else if answer(present, from) {
        seq![candidate(from)]
    } else {
        system_pick(present, from + 1)
    }
}

/// The other managers that are reported: every present one from position
/// `from` on.
pub open spec fn others_pick(present: Seq<bool>, from: int) -> Seq<Seq<char>>
    decreases PROBE_ORDER@.len() - from,
{
    if from < SYSTEM_COUNT || from >= PROBE_ORDER@.len() {
        Seq::empty()
    } else if answer(present, from) {
        seq![candidate(from)] + others_pick(present, from + 1)
    } else {
        others_pick(present, from + 1)
    }
}

/// What a host with the given managers present is reported to have.
pub open spec fn detected(present: Seq<bool>) -> Seq<Seq<char>> {
    system_pick(present, 0) + others_pick(present, SYSTEM_COUNT as int)
}

/// What a detection ends with when every probe is answered from `present`.
pub open spec fn replay(detection: DetectionView, present: Seq<bool>) -> Seq<Seq<char>>
    decreases PROBE_ORDER@.len() - detection.stage,
{
    if !(0 <= detection.stage < PROBE_ORDER@.len()) {
        detection.found
    } else {
        replay(record_step(detection, answer(present, detection.stage)), present)
    }
}

/// From any point on, a detection adds to what it has found the one system
/// manager still to be picked and every other manager still to be probed.
pub proof fn replay_adds_the_rest(detection: DetectionView, present: Seq<bool>)
    requires
        0 <= detection.stage,
    ensures
        replay(detection, present) == detection.found + system_pick(present, detection.stage)
            + others_pick(
            present,
            if detection.stage < SYSTEM_COUNT {
                SYSTEM_COUNT as int
            } else {
                detection.stage
            },
        ),
    decreases PROBE_ORDER@.len() - detection.stage,
{
    let stage = detection.stage;
    let rest = if stage < SYSTEM_COUNT {
        SYSTEM_COUNT as int
    } else {
        stage
    };
    let claim = detection.found + system_pick(present, stage) + others_pick(present, rest);
    if stage < PROBE_ORDER@.len() {
        let next = record_step(detection, answer(present, stage));
        replay_adds_the_rest(next, present);
        if stage < SYSTEM_COUNT {
            if answer(present, stage) {
                assert(system_pick(present, SYSTEM_COUNT as int) =~= Seq::<Seq<char>>::empty());
                assert(replay(detection, present) =~= claim);
            } else {
                assert(replay(detection, present) =~= claim);
            }
        } else {
            assert(system_pick(present, stage) =~= Seq::<Seq<char>>::empty());
            assert(system_pick(present, stage + 1) =~= Seq::<Seq<char>>::empty());
            assert(replay(detection, present) =~= claim);
        }
    } else {
        assert(replay(detection, present) =~= claim);
    }
}

/// A detection that starts from nothing and is answered from `present`
/// reports at most one system manager, the first present one by priority,
/// followed by every other manager that is present, in probe order.
pub proof fn detection_reports_detected(present: Seq<bool>)
    ensures
        replay(DetectionView { stage: 0, found: Seq::empty() }, present) == detected(present),
{
    let start = DetectionView { stage: 0, found: Seq::empty() };
    replay_adds_the_rest(start, present);
    assert(start.found + system_pick(present, 0) + others_pick(present, SYSTEM_COUNT as int)
        =~= detected(present));
}

} // verus!
