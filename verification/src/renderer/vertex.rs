//! Layout of a vertex: which components it has, and where each one lies.

use crate::renderer::native::{
    format_r32_sfloat, format_r32g32_sfloat, format_r32g32b32_sfloat, format_r32g32b32a32_sfloat,
};
use vstd::prelude::*;

verus! {

/// Names one kind of vertex component: a scalar, or a vector of two, three or
/// four scalars of 32 bits.
#[derive(Clone, Copy, PartialEq, Eq, Debug)]
pub struct ComponentId(usize);

/// A type that is one component of a vertex.
pub trait VertexComponent {
    /// The kind of the component, as contracts name it.
    spec fn spec_id() -> ComponentId;

    /// The kind of the component.
    fn id() -> (id: ComponentId)
        ensures
            id == Self::spec_id(),
    ;
}

/// How vertices are fetched from one buffer binding.
#[derive(Clone, Copy, PartialEq, Eq, Debug, Structural)]
pub struct VertexInputBindingDescription {
    pub binding: u32,
    pub stride: u32,
    pub input_rate: i32,
}

/// Where one component of a vertex lies and what format it has.
#[derive(Clone, Copy, PartialEq, Eq, Debug, Structural)]
pub struct VertexInputAttributeDescription {
    pub location: u32,
    pub binding: u32,
    pub format: i32,
    pub offset: u32,
}

impl ComponentId {
    #[verifier::type_invariant]
    spec fn known(self) -> bool {
        1 <= self.0 <= 4
    }

    /// Number of scalars of the component.
    pub closed spec fn scalars(self) -> int {
        self.0 as int
    }

    /// The format of a component of `scalars` scalars.
    pub open spec fn format_of(scalars: int) -> i32 {
        if scalars == 1 {
            100
        } else if scalars == 2 {
            103
        } else if scalars == 3 {
            106
        } else {
            109
        }
    }

    /// The format of the component. A scalar has the format 100, and every
    /// further scalar adds 3.
    pub open spec fn format(self) -> i32 {
        Self::format_of(self.scalars())
    }

    /// The length of the component in bytes: four for each scalar.
    pub open spec fn length(self) -> int {
        4 * self.scalars()
    }

    /// One scalar.
    pub fn scalar() -> (id: Self)
        ensures
            id.scalars() == 1,
    {
        ComponentId(1)
    }

    /// A vector of two scalars.
    pub fn vector2() -> (id: Self)
        ensures
            id.scalars() == 2,
    {
        ComponentId(2)
    }

    /// A vector of three scalars.
    pub fn vector3() -> (id: Self)
        ensures
            id.scalars() == 3,
    {
        ComponentId(3)
    }

    /// A vector of four scalars.
    pub fn vector4() -> (id: Self)
        ensures
            id.scalars() == 4,
    {
        ComponentId(4)
    }

    /// The format of the component and its length in bytes.
    pub fn vk_data(self) -> (data: (i32, u32))
        ensures
            data.0 == self.format(),
            data.1 == self.length(),
            1 <= self.scalars() <= 4,
    {
        proof {
            use_type_invariant(&self);
        }
        if self.0 == 1 {
            (format_r32_sfloat(), 4)
        } else if self.0 == 2 {
            (format_r32g32_sfloat(), 8)
        } else if self.0 == 3 {
            (format_r32g32b32_sfloat(), 12)
        } else {
            (format_r32g32b32a32_sfloat(), 16)
        }
    }
}

/// The lengths of the components of `components`, added up.
pub open spec fn total_component_length(components: Seq<ComponentId>) -> int
    decreases components.len(),
{
    if components.len() == 0 {
        0
    } else {
        total_component_length(components.drop_last()) + components.last().length()
    }
}

/// The attribute of component `i` of `components` on a binding: its location is
/// `i`, and it lies behind the components before it.
pub open spec fn attribute_of(components: Seq<ComponentId>, binding: u32, i: int)
    -> VertexInputAttributeDescription {
    VertexInputAttributeDescription {
        location: i as u32,
        binding,
        format: components[i].format(),
        offset: total_component_length(components.take(i)) as u32,
    }
}

/// The components of a vertex in order, and the size of a vertex in bytes.
pub struct VertexLayout {
    size: u32,
    components: Vec<ComponentId>,
}

impl View for VertexLayout {
    type V = Seq<ComponentId>;

    closed spec fn view(&self) -> Seq<ComponentId> {
        self.components@
    }
}

impl VertexLayout {
    /// The size of a vertex in bytes.
    pub closed spec fn stride(&self) -> u32 {
        self.size
    }

    /// The size of a vertex is the length of its components, and every
    /// component is of a known kind.
    pub closed spec fn wf(&self) -> bool {
        &&& self.size == total_component_length(self.components@)
        &&& forall|i: int|
            0 <= i < self.components@.len() ==> 1 <= (#[trigger] self.components@[i]).scalars() <= 4
    }

    /// In a well-formed layout the stride is the length of the components.
    pub proof fn lemma_stride(&self)
        requires
            self.wf(),
        ensures
            self.stride() == total_component_length(self@),
            forall|i: int| 0 <= i < self@.len() ==> 1 <= (#[trigger] self@[i]).scalars() <= 4,
    {
    }

    /// A layout without components.
    pub fn new() -> (layout: Self)
        ensures
            layout.wf(),
            layout@ == Seq::<ComponentId>::empty(),
            layout.stride() == 0,
    {
        VertexLayout { components: Vec::new(), size: 0 }
    }

    /// Appends a component.
    pub fn push_component(&mut self, id: ComponentId)
        requires
            old(self).wf(),
            old(self).stride() + id.length() <= u32::MAX,
        ensures
            final(self).wf(),
            final(self)@ == old(self)@.push(id),
            final(self).stride() == old(self).stride() + id.length(),
    {
        let (_, length) = id.vk_data();
        self.components.push(id);
        self.size = self.size + length;
        proof {
            assert(self.components@.drop_last() =~= old(self).components@);
        }
    }

    /// Appends the component that `T` is.
    pub fn add_component<T: VertexComponent>(&mut self)
        requires
            old(self).wf(),
            old(self).stride() + T::spec_id().length() <= u32::MAX,
        ensures
            final(self).wf(),
            final(self)@ == old(self)@.push(T::spec_id()),
            final(self).stride() == old(self).stride() + T::spec_id().length(),
    {
        self.push_component(T::id());
    }

    /// The size of a vertex in bytes.
    pub fn size(&self) -> (size: u32)
        ensures
            size == self.stride(),
    {
        self.size
    }

    /// Number of components.
    pub fn num_components(&self) -> (n: usize)
        ensures
            n == self@.len(),
    {
        self.components.len()
    }

    /// How vertices of this layout are fetched from a binding: one vertex every
    /// `stride` bytes.
    pub fn vulkan_vertex_input_binding_description(&self, binding: u32, input_rate: i32) -> (
        description: VertexInputBindingDescription)
        ensures
            description == (VertexInputBindingDescription {
                binding,
                stride: self.stride(),
                input_rate,
            }),
    {
        VertexInputBindingDescription { binding, stride: self.size, input_rate }
    }

    /// Writes the attribute of each component into `out`, at the component's
    /// position. The rest of `out` stays as it is.
    pub fn vulkan_describe_vertex_attributes(
        &self,
        binding: u32,
        out: &mut [VertexInputAttributeDescription],
    )
        requires
            self.wf(),
            self@.len() <= old(out)@.len(),
            self@.len() <= u32::MAX,
        ensures
            final(out)@.len() == old(out)@.len(),
            forall|i: int|
                0 <= i < self@.len() ==> #[trigger] final(out)@[i] == attribute_of(
                    self@,
                    binding,
                    i,
                ),
            forall|i: int| self@.len() <= i < old(out)@.len() ==> #[trigger] final(out)@[i] == old(out)@[i],
    {
        let n = self.components.len();
        let mut offset: u32 = 0;
        let mut index: usize = 0;
        assert(self.components@.take(0).len() == 0);
        while index < n
            invariant
                self.wf(),
                n == self.components@.len(),
                n <= u32::MAX,
                n <= out@.len(),
                index <= n,
                out@.len() == old(out)@.len(),
                offset == total_component_length(self.components@.take(index as int)),
                forall|i: int|
                    0 <= i < index ==> #[trigger] out@[i] == attribute_of(
                        self.components@,
                        binding,
                        i,
                    ),
                forall|i: int| index <= i < out@.len() ==> #[trigger] out@[i] == old(out)@[i],
            decreases n - index,
        {
            let component = self.components[index];
            let (format, length) = component.vk_data();
            out[index] = VertexInputAttributeDescription {
                binding,
                location: index as u32,
                format,
                offset,
            };
            proof {
                let all = self.components@;
                assert(all.take(index as int + 1).drop_last() =~= all.take(index as int));
                lemma_prefix_length(all, index as int + 1);
            }
            offset = offset + length;
            index = index + 1;
        }
    }
}

/// A prefix of the components is no longer than all of them.
pub proof fn lemma_prefix_length(components: Seq<ComponentId>, k: int)
    requires
        0 <= k <= components.len(),
        forall|i: int| 0 <= i < components.len() ==> 1 <= (#[trigger] components[i]).scalars() <= 4,
    ensures
        0 <= total_component_length(components.take(k)) <= total_component_length(components),
    decreases components.len() - k,
{
    if k == components.len() {
        assert(components.take(k) =~= components);
        lemma_length_nonneg(components);
    } else {
        lemma_prefix_length(components, k + 1);
        assert(components.take(k + 1).drop_last() =~= components.take(k));
        lemma_length_nonneg(components.take(k));
    }
}

/// The length of components is not negative.
pub proof fn lemma_length_nonneg(components: Seq<ComponentId>)
    requires
        forall|i: int| 0 <= i < components.len() ==> 1 <= (#[trigger] components[i]).scalars() <= 4,
    ensures
        total_component_length(components) >= 0,
    decreases components.len(),
{
    if components.len() > 0 {
        let init = components.drop_last();
        assert forall|i: int| 0 <= i < init.len() implies 1 <= (#[trigger] init[i]).scalars() <= 4 by {
            assert(init[i] == components[i]);
        }
        lemma_length_nonneg(init);
    }
}

} // verus!
