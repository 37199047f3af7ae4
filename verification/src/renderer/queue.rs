//! Choice of the queue families that the renderer submits to.

use crate::renderer::native::{has_bits, queue_supports_graphics, queue_supports_transfer};
use vstd::prelude::*;

verus! {

/// What the device reports of one queue family: its capability flags, and the
/// answer to the question whether it can present to the surface. A failed
/// question carries the driver's status code.
#[derive(Clone, Copy, Debug, PartialEq, Eq)]
pub struct QueueFamilyProperties {
    pub queue_flags: u32,
    pub surface_support: Result<bool, i32>,
}

/// The queue families chosen for drawing, presenting and transfers.
#[derive(Clone, Copy, Debug, PartialEq, Eq)]
pub struct QueueFamilyIndices {
    pub graphics_family: Option<u32>,
    pub present_family: Option<u32>,
    pub dedicated_transfer_family: Option<u32>,
}

/// The family can draw.
pub open spec fn can_draw(family: QueueFamilyProperties) -> bool {
    has_bits(family.queue_flags, 0x1)
}

/// The family can draw and present to the surface.
pub open spec fn is_unified(family: QueueFamilyProperties) -> bool {
    can_draw(family) && family.surface_support == Ok::<bool, i32>(true)
}

/// The family can transfer and cannot draw.
pub open spec fn is_dedicated_transfer(family: QueueFamilyProperties) -> bool {
    has_bits(family.queue_flags, 0x4) && !can_draw(family)
}

/// Family `i` is the first that is unified.
pub open spec fn is_first_unified(families: Seq<QueueFamilyProperties>, i: int) -> bool {
    &&& 0 <= i < families.len()
    &&& is_unified(families[i])
    &&& forall|j: int| 0 <= j < i ==> !is_unified(#[trigger] families[j])
}

/// Family `i` is the first that is a dedicated transfer family.
pub open spec fn is_first_dedicated_transfer(families: Seq<QueueFamilyProperties>, i: int) -> bool {
    &&& 0 <= i < families.len()
    &&& is_dedicated_transfer(families[i])
    &&& forall|j: int| 0 <= j < i ==> !is_dedicated_transfer(#[trigger] families[j])
}

/// The last family before `k` that can draw.
pub open spec fn last_drawing_before(families: Seq<QueueFamilyProperties>, k: int) -> Option<u32>
    decreases k,
{
    if k <= 0 || k > families.len() {
        None
    } else if can_draw(families[k - 1]) {
        Some((k - 1) as u32)
    } else {
        last_drawing_before(families, k - 1)
    }
}

/// At family `i` a family that can draw was seen, and the question whether
/// family `i` can present was answered.
pub open spec fn completes_at(families: Seq<QueueFamilyProperties>, i: int) -> bool {
    &&& 0 <= i < families.len()
    &&& families[i].surface_support is Ok
    &&& last_drawing_before(families, i + 1) is Some
}

/// Family `i` is the first at which the fallback choice is complete.
pub open spec fn is_first_complete(families: Seq<QueueFamilyProperties>, i: int) -> bool {
    &&& completes_at(families, i)
    &&& forall|j: int| 0 <= j < i ==> !completes_at(families, j)
}

/// The choice where no family is unified. The families are walked in order: a
/// family that can draw becomes the graphics family, and the family at hand
/// becomes the present family where the question whether it can present was
/// answered, whatever the answer, and stops being it where the question failed.
/// The walk ends as soon as both are chosen.
pub open spec fn fallback_choice(families: Seq<QueueFamilyProperties>) -> (Option<u32>, Option<u32>) {
    if exists|i: int| is_first_complete(families, i) {
        let stop = choose|i: int| is_first_complete(families, i);
        (last_drawing_before(families, stop + 1), Some(stop as u32))
    } else {
        let n = families.len() as int;
        (
            last_drawing_before(families, n),
            if n > 0 && families[n - 1].surface_support is Ok {
                Some((n - 1) as u32)
            } else {
                None
            },
        )
    }
}

/// The families chosen from what the device reports.
pub open spec fn chosen_families(
    families: Seq<QueueFamilyProperties>,
    chosen: QueueFamilyIndices,
) -> bool {
    &&& match chosen.dedicated_transfer_family {
        Some(t) => is_first_dedicated_transfer(families, t as int),
        None => forall|j: int|
            0 <= j < families.len() ==> !is_dedicated_transfer(#[trigger] families[j]),
    }
    &&& if exists|i: int| is_first_unified(families, i) {
        &&& chosen.graphics_family matches Some(g)
        &&& is_first_unified(families, g as int)
        &&& chosen.present_family == Some(g)
    } else {
        (chosen.graphics_family, chosen.present_family) == fallback_choice(families)
    }
}

impl QueueFamilyIndices {
    /// Chooses the queue families. The first family that can both draw and
    /// present serves both purposes. Where there is none, the families are taken
    /// by the fallback walk. The first family that can transfer and cannot draw
    /// is the dedicated transfer family.
    pub fn fetch(families: &[QueueFamilyProperties]) -> (chosen: Self)
        requires
            families@.len() <= u32::MAX,
        ensures
            chosen_families(families@, chosen),
    {
        let n = families.len();
        let mut chosen = QueueFamilyIndices::none();

        let mut i: usize = 0;
        while i < n
            invariant
                n == families@.len(),
                n <= u32::MAX,
                i <= n,
                chosen.dedicated_transfer_family is None,
                chosen.present_family == chosen.graphics_family,
                match chosen.graphics_family {
                    Some(g) => is_first_unified(families@, g as int),
                    None => forall|j: int| 0 <= j < i ==> !is_unified(#[trigger] families@[j]),
                },
            decreases n - i,
        {
            if chosen.graphics_family.is_none() && queue_supports_graphics(families[i].queue_flags)
                && Self::answered_yes(&families[i]) {
                chosen.graphics_family = Some(i as u32);
                chosen.present_family = Some(i as u32);
            }
            i = i + 1;
        }

        let mut t: usize = 0;
        while t < n
            invariant
                n == families@.len(),
                n <= u32::MAX,
                t <= n,
                chosen.present_family == chosen.graphics_family,
                match chosen.graphics_family {
                    Some(g) => is_first_unified(families@, g as int),
                    None => forall|j: int| 0 <= j < n ==> !is_unified(#[trigger] families@[j]),
                },
                match chosen.dedicated_transfer_family {
                    Some(d) => is_first_dedicated_transfer(families@, d as int),
                    None => forall|j: int|
                        0 <= j < t ==> !is_dedicated_transfer(#[trigger] families@[j]),
                },
            decreases n - t,
        {
            if chosen.dedicated_transfer_family.is_none() && queue_supports_transfer(
                families[t].queue_flags,
            ) && !queue_supports_graphics(families[t].queue_flags) {
                chosen.dedicated_transfer_family = Some(t as u32);
            }
            t = t + 1;
        }

        if !chosen.has_all() {
            assert(forall|j: int| !is_first_unified(families@, j));
            let mut k: usize = 0;
            while k < n
                invariant_except_break
                    forall|j: int| 0 <= j < k ==> !completes_at(families@, j),
                    chosen.graphics_family == last_drawing_before(families@, k as int),
                    chosen.present_family == if k > 0 && families@[k - 1].surface_support is Ok {
                        Some((k - 1) as u32)
                    } else {
                        None::<u32>
                    },
                invariant
                    n == families@.len(),
                    n <= u32::MAX,
                    k <= n,
                    forall|j: int| !is_first_unified(families@, j),
                    match chosen.dedicated_transfer_family {
                        Some(d) => is_first_dedicated_transfer(families@, d as int),
                        None => forall|j: int|
                            0 <= j < n ==> !is_dedicated_transfer(#[trigger] families@[j]),
                    },
                ensures
                    (chosen.graphics_family, chosen.present_family) == fallback_choice(families@),
                decreases n - k,
            {
                if queue_supports_graphics(families[k].queue_flags) {
                    chosen.graphics_family = Some(k as u32);
                }
                chosen.present_family = match families[k].surface_support {
                    Ok(_) => Some(k as u32),
                    Err(_) => None,
                };
                if chosen.has_all() {
                    proof {
                        assert(is_first_complete(families@, k as int));
                        Self::lemma_first_complete_unique(families@, k as int);
                    }
                    break ;
                }
                k = k + 1;
            }
        } else {
            assert(is_first_unified(families@, chosen.graphics_family.unwrap() as int));
        }
        chosen
    }

    /// The question whether the family can present was answered with yes.
    fn answered_yes(family: &QueueFamilyProperties) -> (yes: bool)
        ensures
            yes == (family.surface_support == Ok::<bool, i32>(true)),
    {
        match family.surface_support {
            Ok(supported) => supported,
            Err(_) => false,
        }
    }

    /// The first family at which the fallback choice is complete is the only one.
    pub proof fn lemma_first_complete_unique(families: Seq<QueueFamilyProperties>, i: int)
        requires
            is_first_complete(families, i),
        ensures
            (exists|j: int| is_first_complete(families, j)),
            (choose|j: int| is_first_complete(families, j)) == i,
    {
        let c = choose|j: int| is_first_complete(families, j);
        if c < i {
            assert(!completes_at(families, c));
        }
        if i < c {
            assert(!completes_at(families, i));
        }
    }

    /// Whether a family for drawing and a family for presenting are chosen.
    pub fn has_all(&self) -> (all: bool)
        ensures
            all == (self.graphics_family is Some && self.present_family is Some),
    {
        self.graphics_family.is_some() && self.present_family.is_some()
    }

    /// No family chosen.
    pub fn none() -> (chosen: Self)
        ensures
            chosen.graphics_family is None,
            chosen.present_family is None,
            chosen.dedicated_transfer_family is None,
    {
        QueueFamilyIndices {
            present_family: None,
            graphics_family: None,
            dedicated_transfer_family: None,
        }
    }
}

impl Default for QueueFamilyIndices {
    fn default() -> (chosen: Self)
        ensures
            chosen.graphics_family is None,
            chosen.present_family is None,
            chosen.dedicated_transfer_family is None,
    {
        QueueFamilyIndices::none()
    }
}

} // verus!
