use vstd::prelude::*;

verus! {

/// Size in bytes of one `GLfloat`, the component type of every vertex
/// attribute in the examples.
pub const FLOAT_BYTES: usize = 4;

/// Number of float components of the attributes that come before
/// attribute `k` in an interleaved vertex.
pub open spec fn components_before(components: Seq<u32>, k: int) -> int
    decreases k,
{
    if k <= 0 || components.len() == 0 {
        0
    } else if k > components.len() {
        components_before(components, components.len() as int)
    } else {
        components_before(components, k - 1) + components[k - 1]
    }
}

/// Number of float components of one whole interleaved vertex.
pub open spec fn components_total(components: Seq<u32>) -> int {
    components_before(components, components.len() as int)
}

/// Byte stride and byte offset of each attribute of an interleaved vertex
/// buffer, as handed to `glVertexAttribPointer`.
pub struct VertexLayout {
    pub stride: i32,
    pub offsets: Vec<usize>,
}

proof fn lemma_components_before_monotone(components: Seq<u32>, j: int, k: int)
    requires
        0 <= j <= k <= components.len(),
    ensures
        0 <= components_before(components, j) <= components_before(components, k),
    decreases k - j,
{
    if j < k {
        lemma_components_before_monotone(components, j, k - 1);
    } else {
        lemma_components_before_nonneg(components, j);
    }
}

proof fn lemma_components_before_nonneg(components: Seq<u32>, k: int)
    requires
        0 <= k <= components.len(),
    ensures
        0 <= components_before(components, k),
    decreases k,
{
    if k > 0 {
        lemma_components_before_nonneg(components, k - 1);
    }
}

/// The layout of a vertex buffer whose vertices hold the given attributes
/// one after the other, each attribute `components[i]` floats wide: the
/// stride is the size of a whole vertex and each offset is the size of the
/// attributes before it. `None` when the stride does not fit a `GLsizei`.
pub fn interleaved_layout(components: &Vec<u32>) -> (layout: Option<VertexLayout>)
    ensures
        match layout {
            None => FLOAT_BYTES * components_total(components@) > i32::MAX,
            Some(l) => {
                &&& l.stride == FLOAT_BYTES * components_total(components@)
                &&& l.offsets@.len() == components@.len()
                &&& forall|i: int|
                    0 <= i < components@.len() ==> l.offsets@[i] == FLOAT_BYTES
                        * components_before(components@, i)
            },
        },
{
    let mut offsets: Vec<usize> = Vec::new();
    let mut floats: u64 = 0;
    let mut i: usize = 0;
    while i < components.len()
        invariant
            i <= components@.len(),
            floats == components_before(components@, i as int),
            4 * floats <= i32::MAX,
            offsets@.len() == i,
            forall|k: int| 0 <= k < i ==> offsets@[k] == FLOAT_BYTES * components_before(components@, k),
        decreases components@.len() - i,
    {
        offsets.push(4 * floats as usize);
        let next: u64 = floats + components[i] as u64;
        assert(next == components_before(components@, i + 1));
        if next > 536870911 {
            proof {
                lemma_components_before_monotone(components@, i + 1, components@.len() as int);
            }
            return None;
        }
        floats = next;
        i = i + 1;
    }
    Some(VertexLayout { stride: (4 * floats) as i32, offsets })
}

/// Size in bytes of a buffer of `count` floats (`GLsizeiptr`); `None` when
/// it does not fit.
pub fn float_buffer_bytes(count: usize) -> (bytes: Option<isize>)
    ensures
        match bytes {
            None => FLOAT_BYTES * count > isize::MAX,
            Some(b) => b == FLOAT_BYTES * count,
        },
{
    if count > (isize::MAX as usize) / 4 {
        None
    } else {
        Some((4 * count) as isize)
    }
}

/// The attributes of an interleaved layout are packed without gaps: each
/// one starts where the one before it ends, the first starts at zero, and
/// the last ends exactly at the stride.
pub proof fn lemma_layout_packed(components: Seq<u32>, layout: VertexLayout)
    requires
        layout.stride == FLOAT_BYTES * components_total(components),
        layout.offsets@.len() == components.len(),
        forall|i: int|
            0 <= i < components.len() ==> layout.offsets@[i] == FLOAT_BYTES * components_before(
                components,
                i,
            ),
    ensures
        components.len() > 0 ==> layout.offsets@[0] == 0,
        forall|i: int|
            0 <= i < components.len() - 1 ==> layout.offsets@[i + 1] == layout.offsets@[i]
                + FLOAT_BYTES * components[i],
        components.len() > 0 ==> layout.offsets@[components.len() - 1] + FLOAT_BYTES
            * components[components.len() - 1] == layout.stride,
        components.len() == 0 ==> layout.stride == 0,
{
    assert forall|i: int| 0 <= i < components.len() - 1 implies layout.offsets@[i + 1]
        == layout.offsets@[i] + FLOAT_BYTES * components[i] by {
        assert(components_before(components, i + 1) == components_before(components, i)
            + components[i]);
    }
}

} // verus!
