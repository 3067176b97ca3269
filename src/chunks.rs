use vstd::prelude::*;
use crate::codec::{
    chunk, concat, get_id_char, id_of, lemma_concat_prefix_len, lemma_concat_take, le32,
    push_all, push_i32, push_u32, write_chunk,
};
use crate::dict::{dict_bytes, DICT};

verus! {

pub open spec fn ntrn_tag() -> int {
    id_of('n' as int, 'T' as int, 'R' as int, 'N' as int)
}

pub open spec fn ngrp_tag() -> int {
    id_of('n' as int, 'G' as int, 'R' as int, 'P' as int)
}

pub open spec fn nshp_tag() -> int {
    id_of('n' as int, 'S' as int, 'H' as int, 'P' as int)
}

pub open spec fn layr_tag() -> int {
    id_of('L' as int, 'A' as int, 'Y' as int, 'R' as int)
}

pub open spec fn size_tag() -> int {
    id_of('S' as int, 'I' as int, 'Z' as int, 'E' as int)
}

pub open spec fn xyzi_tag() -> int {
    id_of('X' as int, 'Y' as int, 'Z' as int, 'I' as int)
}

pub open spec fn rgba_tag() -> int {
    id_of('R' as int, 'G' as int, 'B' as int, 'A' as int)
}

/// The dictionaries, one after the other.
pub open spec fn dicts_bytes(dicts: Seq<Seq<(Seq<u8>, Seq<u8>)>>) -> Seq<u8> {
    concat(dicts.map_values(|d: Seq<(Seq<u8>, Seq<u8>)>| dict_bytes(d)))
}

/// Content of a transform node: its id, attributes, child id, reserved id, layer
/// id, the number of frames and each frame's dictionary.
pub open spec fn ntrn_content(
    node_id: int,
    attribs: Seq<(Seq<u8>, Seq<u8>)>,
    child: int,
    reserved: int,
    layer: int,
    frames: Seq<Seq<(Seq<u8>, Seq<u8>)>>,
) -> Seq<u8> {
    le32(node_id) + dict_bytes(attribs) + le32(child) + le32(reserved) + le32(layer) + le32(
        frames.len() as int,
    ) + dicts_bytes(frames)
}

/// Content of a group node: its id, attributes, the number of children and each
/// child's id.
pub open spec fn ngrp_content(
    node_id: int,
    attribs: Seq<(Seq<u8>, Seq<u8>)>,
    children: Seq<int>,
) -> Seq<u8> {
    le32(node_id) + dict_bytes(attribs) + le32(children.len() as int) + concat(
        children.map_values(|c: int| le32(c)),
    )
}

/// A model reference of a shape node: the model's index and its attributes.
pub open spec fn model_bytes(model_id: int, attribs: Seq<(Seq<u8>, Seq<u8>)>) -> Seq<u8> {
    le32(model_id) + dict_bytes(attribs)
}

/// Content of a shape node: its id, attributes, the number of models and each
/// model reference.
pub open spec fn nshp_content(
    node_id: int,
    attribs: Seq<(Seq<u8>, Seq<u8>)>,
    models: Seq<(int, Seq<(Seq<u8>, Seq<u8>)>)>,
) -> Seq<u8> {
    le32(node_id) + dict_bytes(attribs) + le32(models.len() as int) + concat(
        models.map_values(|m: (int, Seq<(Seq<u8>, Seq<u8>)>)| model_bytes(m.0, m.1)),
    )
}

/// Content of a layer chunk: its id, attributes and reserved id.
pub open spec fn layr_content(node_id: int, attribs: Seq<(Seq<u8>, Seq<u8>)>, reserved: int) -> Seq<
    u8,
> {
    le32(node_id) + dict_bytes(attribs) + le32(reserved)
}

/// Content of a size chunk: the three extents.
pub open spec fn size_content(x: int, y: int, z: int) -> Seq<u8> {
    le32(x) + le32(y) + le32(z)
}

/// Content of a voxel chunk: the number of whole quadruples, then the raw bytes.
pub open spec fn xyzi_content(voxels: Seq<u8>) -> Seq<u8> {
    le32((voxels.len() / 4) as int) + voxels
}

/// Content of a palette chunk: each packed color.
pub open spec fn rgba_content(colors: Seq<u32>) -> Seq<u8> {
    concat(colors.map_values(|c: u32| le32(c as int)))
}

/// Scene graph transform node.
pub struct Ntrn {
    pub node_id: i32,
    pub node_attribs: DICT,
    pub child_node_id: i32,
    pub reserved_id: i32,
    pub layer_id: i32,
    pub frames: Vec<DICT>,
}

impl Ntrn {
    pub open spec fn frames_view(&self) -> Seq<Seq<(Seq<u8>, Seq<u8>)>> {
        self.frames@.map_values(|d: DICT| d@)
    }

    pub open spec fn content(&self) -> Seq<u8> {
        ntrn_content(
            self.node_id as int,
            self.node_attribs@,
            self.child_node_id as int,
            self.reserved_id as int,
            self.layer_id as int,
            self.frames_view(),
        )
    }

    /// A node with `count_frames` empty frames, id and child 0, no reserved id and
    /// no layer.
    pub fn create(count_frames: usize) -> (r: Self)
        ensures
            r.node_id == 0,
            r.node_attribs@ == Seq::<(Seq<u8>, Seq<u8>)>::empty(),
            r.child_node_id == 0,
            r.reserved_id == -1,
            r.layer_id == -1,
            r.frames_view() == Seq::new(
                count_frames as nat,
                |i: int| Seq::<(Seq<u8>, Seq<u8>)>::empty(),
            ),
    {
        let mut frames: Vec<DICT> = Vec::new();
        while frames.len() < count_frames
            invariant
                frames@.len() <= count_frames,
                forall|i: int| 0 <= i < frames@.len() ==> (#[trigger] frames@[i])@ == Seq::<
                    (Seq<u8>, Seq<u8>),
                >::empty(),
            decreases count_frames - frames@.len(),
        {
            frames.push(DICT::create_empty());
        }
        let r = Ntrn {
            node_id: 0,
            node_attribs: DICT::create_empty(),
            child_node_id: 0,
            reserved_id: -1,
            layer_id: -1,
            frames,
        };
        assert(r.frames_view() =~= Seq::new(
            count_frames as nat,
            |i: int| Seq::<(Seq<u8>, Seq<u8>)>::empty(),
        ));
        r
    }

    #[verifier::rlimit(40)]
    fn write_content(&self, out: &mut Vec<u8>)
        ensures
            final(out)@ == old(out)@ + self.content(),
    {
        let ghost parts = self.frames_view().map_values(
            |d: Seq<(Seq<u8>, Seq<u8>)>| dict_bytes(d),
        );
        let ghost start = out@;
        push_i32(out, self.node_id);
        self.node_attribs.write(out);
        push_i32(out, self.child_node_id);
        push_i32(out, self.reserved_id);
        push_i32(out, self.layer_id);
        let count: u32 = (self.frames.len() as u64 % 0x1_0000_0000u64) as u32;
        push_u32(out, count);
        assert(le32(count as int) == le32(self.frames@.len() as int));
        let ghost head = out@;
        assert(head =~= old(out)@ + (le32(self.node_id as int) + dict_bytes(self.node_attribs@)
            + le32(self.child_node_id as int) + le32(self.reserved_id as int) + le32(
            self.layer_id as int,
        ) + le32(self.frames@.len() as int)));
        let mut i: usize = 0;
        while i < self.frames.len()
            invariant
                i <= self.frames@.len(),
                parts == self.frames_view().map_values(
                    |d: Seq<(Seq<u8>, Seq<u8>)>| dict_bytes(d),
                ),
                out@ == head + concat(parts.take(i as int)),
            decreases self.frames@.len() - i,
        {
            self.frames[i].write(out);
            proof {
                lemma_concat_take(parts, i as int);
            }
            i = i + 1;
        }
        assert(parts.take(i as int) =~= parts);
        assert(self.frames_view().len() == self.frames@.len());
        assert(final(out)@ =~= old(out)@ + self.content());
    }

    /// Appends the framed chunk.
    pub fn write(&self, out: &mut Vec<u8>)
        ensures
            final(out)@ == old(out)@ + chunk(ntrn_tag(), self.content()),
            final(out)@.len() == old(out)@.len() + 12 + self.content().len(),
    {
        let mut content: Vec<u8> = Vec::new();
        self.write_content(&mut content);
        assert(content@ =~= self.content());
        write_chunk(out, get_id_char('n', 'T', 'R', 'N'), &content);
    }

    /// The number of content bytes that `write` frames.
    pub fn get_size(&self) -> (r: usize)
        requires
            self.content().len() <= usize::MAX,
        ensures
            r == self.content().len(),
    {
        let ghost parts = self.frames_view().map_values(
            |d: Seq<(Seq<u8>, Seq<u8>)>| dict_bytes(d),
        );
        let mut s: usize = 20 + self.node_attribs.get_size();
        let mut i: usize = 0;
        while i < self.frames.len()
            invariant
                i <= self.frames@.len(),
                parts == self.frames_view().map_values(
                    |d: Seq<(Seq<u8>, Seq<u8>)>| dict_bytes(d),
                ),
                self.content().len() <= usize::MAX,
                s == 20 + dict_bytes(self.node_attribs@).len() + concat(parts.take(i as int)).len(),
            decreases self.frames@.len() - i,
        {
            proof {
                lemma_concat_take(parts, i as int);
                lemma_concat_prefix_len(parts, i + 1);
            }
            s = s + self.frames[i].get_size();
            i = i + 1;
        }
        assert(parts.take(i as int) =~= parts);
        s
    }
}

/// Scene graph group node.
pub struct Ngrp {
    pub node_id: i32,
    pub node_attribs: DICT,
    pub child_nodes: Vec<i32>,
}

impl Ngrp {
    pub open spec fn children_view(&self) -> Seq<int> {
        self.child_nodes@.map_values(|c: i32| c as int)
    }

    pub open spec fn content(&self) -> Seq<u8> {
        ngrp_content(self.node_id as int, self.node_attribs@, self.children_view())
    }

    /// A group of `count` children, all with id 0.
    pub fn create(count: usize) -> (r: Self)
        ensures
            r.node_id == 0,
            r.node_attribs@ == Seq::<(Seq<u8>, Seq<u8>)>::empty(),
            r.child_nodes@ == Seq::new(count as nat, |i: int| 0i32),
    {
        let mut nodes: Vec<i32> = Vec::new();
        while nodes.len() < count
            invariant
                nodes@.len() <= count,
                forall|i: int| 0 <= i < nodes@.len() ==> #[trigger] nodes@[i] == 0,
            decreases count - nodes@.len(),
        {
            nodes.push(0);
        }
        assert(nodes@ =~= Seq::new(count as nat, |i: int| 0i32));
        Ngrp { node_id: 0, node_attribs: DICT::create_empty(), child_nodes: nodes }
    }

    #[verifier::rlimit(40)]
    fn write_content(&self, out: &mut Vec<u8>)
        ensures
            final(out)@ == old(out)@ + self.content(),
    {
        let ghost parts = self.children_view().map_values(|c: int| le32(c));
        push_i32(out, self.node_id);
        self.node_attribs.write(out);
        let count: u32 = (self.child_nodes.len() as u64 % 0x1_0000_0000u64) as u32;
        push_u32(out, count);
        assert(le32(count as int) == le32(self.child_nodes@.len() as int));
        let ghost head = out@;
        assert(head =~= old(out)@ + (le32(self.node_id as int) + dict_bytes(self.node_attribs@)
            + le32(self.child_nodes@.len() as int)));
        let mut i: usize = 0;
        while i < self.child_nodes.len()
            invariant
                i <= self.child_nodes@.len(),
                parts == self.children_view().map_values(|c: int| le32(c)),
                out@ == head + concat(parts.take(i as int)),
            decreases self.child_nodes@.len() - i,
        {
            push_i32(out, self.child_nodes[i]);
            proof {
                lemma_concat_take(parts, i as int);
            }
            i = i + 1;
        }
        assert(parts.take(i as int) =~= parts);
        assert(self.children_view().len() == self.child_nodes@.len());
        assert(final(out)@ =~= old(out)@ + self.content());
    }

    /// Appends the framed chunk.
    pub fn write(&self, out: &mut Vec<u8>)
        ensures
            final(out)@ == old(out)@ + chunk(ngrp_tag(), self.content()),
            final(out)@.len() == old(out)@.len() + 12 + self.content().len(),
    {
        let mut content: Vec<u8> = Vec::new();
        self.write_content(&mut content);
        assert(content@ =~= self.content());
        write_chunk(out, get_id_char('n', 'G', 'R', 'P'), &content);
    }

    /// The number of content bytes that `write` frames.
    pub fn get_size(&self) -> (r: usize)
        requires
            self.content().len() <= usize::MAX,
        ensures
            r == self.content().len(),
    {
        proof {
            lemma_concat_fixed_len(self.children_view().map_values(|c: int| le32(c)), 4);
        }
        let n = self.child_nodes.len();
        self.node_attribs.get_size() + 8 + 4 * n
    }
}

/// The join of parts all of length `k` has `k` bytes for each part.
pub proof fn lemma_concat_fixed_len(parts: Seq<Seq<u8>>, k: nat)
    requires
        forall|i: int| 0 <= i < parts.len() ==> (#[trigger] parts[i]).len() == k,
    ensures
        concat(parts).len() == parts.len() * k,
    decreases parts.len(),
{
    if parts.len() > 0 {
        lemma_concat_fixed_len(parts.drop_last(), k);
        assert(parts.len() * k == (parts.len() - 1) * k + k) by (nonlinear_arith);
    }
}

/// A model reference of a shape node.
pub struct Model {
    pub model_id: i32,
    pub model_attribs: DICT,
}

impl Model {
    pub open spec fn bytes(&self) -> Seq<u8> {
        model_bytes(self.model_id as int, self.model_attribs@)
    }

    pub fn create_empty() -> (r: Self)
        ensures
            r.model_id == 0,
            r.model_attribs@ == Seq::<(Seq<u8>, Seq<u8>)>::empty(),
    {
        Model { model_id: 0, model_attribs: DICT::create_empty() }
    }

    pub fn write(&self, out: &mut Vec<u8>)
        ensures
            final(out)@ == old(out)@ + self.bytes(),
    {
        push_i32(out, self.model_id);
        self.model_attribs.write(out);
        assert(final(out)@ =~= old(out)@ + self.bytes());
    }

    /// The number of bytes that `write` appends.
    pub fn get_size(&self) -> (r: usize)
        requires
            self.bytes().len() <= usize::MAX,
        ensures
            r == self.bytes().len(),
    {
        4 + self.model_attribs.get_size()
    }
}

/// Scene graph shape node.
pub struct Nshp {
    pub node_id: i32,
    pub node_attribs: DICT,
    pub models: Vec<Model>,
}

impl Nshp {
    pub open spec fn models_view(&self) -> Seq<(int, Seq<(Seq<u8>, Seq<u8>)>)> {
        self.models@.map_values(|m: Model| (m.model_id as int, m.model_attribs@))
    }

    pub open spec fn content(&self) -> Seq<u8> {
        nshp_content(self.node_id as int, self.node_attribs@, self.models_view())
    }

    /// A shape of `count` empty model references.
    pub fn create(count: usize) -> (r: Self)
        ensures
            r.node_id == 0,
            r.node_attribs@ == Seq::<(Seq<u8>, Seq<u8>)>::empty(),
            r.models_view() == Seq::new(
                count as nat,
                |i: int| (0int, Seq::<(Seq<u8>, Seq<u8>)>::empty()),
            ),
    {
        let mut models: Vec<Model> = Vec::new();
        while models.len() < count
            invariant
                models@.len() <= count,
                forall|i: int|
                    0 <= i < models@.len() ==> (#[trigger] models@[i]).model_id == 0
                        && models@[i].model_attribs@ == Seq::<(Seq<u8>, Seq<u8>)>::empty(),
            decreases count - models@.len(),
        {
            models.push(Model::create_empty());
        }
        let r = Nshp { node_id: 0, node_attribs: DICT::create_empty(), models };
        assert(r.models_view() =~= Seq::new(
            count as nat,
            |i: int| (0int, Seq::<(Seq<u8>, Seq<u8>)>::empty()),
        ));
        r
    }

    #[verifier::rlimit(40)]
    fn write_content(&self, out: &mut Vec<u8>)
        ensures
            final(out)@ == old(out)@ + self.content(),
    {
        let ghost parts = self.models_view().map_values(
            |m: (int, Seq<(Seq<u8>, Seq<u8>)>)| model_bytes(m.0, m.1),
        );
        push_i32(out, self.node_id);
        self.node_attribs.write(out);
        let count: u32 = (self.models.len() as u64 % 0x1_0000_0000u64) as u32;
        push_u32(out, count);
        assert(le32(count as int) == le32(self.models@.len() as int));
        let ghost head = out@;
        assert(head =~= old(out)@ + (le32(self.node_id as int) + dict_bytes(self.node_attribs@)
            + le32(self.models@.len() as int)));
        let mut i: usize = 0;
        while i < self.models.len()
            invariant
                i <= self.models@.len(),
                parts == self.models_view().map_values(
                    |m: (int, Seq<(Seq<u8>, Seq<u8>)>)| model_bytes(m.0, m.1),
                ),
                out@ == head + concat(parts.take(i as int)),
            decreases self.models@.len() - i,
        {
            self.models[i].write(out);
            proof {
                lemma_concat_take(parts, i as int);
            }
            i = i + 1;
        }
        assert(parts.take(i as int) =~= parts);
        assert(self.models_view().len() == self.models@.len());
        assert(final(out)@ =~= old(out)@ + self.content());
    }

    /// Appends the framed chunk.
    pub fn write(&self, out: &mut Vec<u8>)
        ensures
            final(out)@ == old(out)@ + chunk(nshp_tag(), self.content()),
            final(out)@.len() == old(out)@.len() + 12 + self.content().len(),
    {
        let mut content: Vec<u8> = Vec::new();
        self.write_content(&mut content);
        assert(content@ =~= self.content());
        write_chunk(out, get_id_char('n', 'S', 'H', 'P'), &content);
    }

    /// The number of content bytes that `write` frames.
    pub fn get_size(&self) -> (r: usize)
        requires
            self.content().len() <= usize::MAX,
        ensures
            r == self.content().len(),
    {
        let ghost parts = self.models_view().map_values(
            |m: (int, Seq<(Seq<u8>, Seq<u8>)>)| model_bytes(m.0, m.1),
        );
        let mut s: usize = 8 + self.node_attribs.get_size();
        let mut i: usize = 0;
        while i < self.models.len()
            invariant
                i <= self.models@.len(),
                parts == self.models_view().map_values(
                    |m: (int, Seq<(Seq<u8>, Seq<u8>)>)| model_bytes(m.0, m.1),
                ),
                self.content().len() <= usize::MAX,
                s == 8 + dict_bytes(self.node_attribs@).len() + concat(parts.take(i as int)).len(),
            decreases self.models@.len() - i,
        {
            proof {
                lemma_concat_take(parts, i as int);
                lemma_concat_prefix_len(parts, i + 1);
            }
            s = s + self.models[i].get_size();
            i = i + 1;
        }
        assert(parts.take(i as int) =~= parts);
        s
    }
}

/// Layer chunk.
pub struct LAYR {
    pub node_id: i32,
    pub node_attribs: DICT,
    pub reserved_id: i32,
}

impl LAYR {
    pub open spec fn content(&self) -> Seq<u8> {
        layr_content(self.node_id as int, self.node_attribs@, self.reserved_id as int)
    }

    pub fn create_empty() -> (r: Self)
        ensures
            r.node_id == 0,
            r.node_attribs@ == Seq::<(Seq<u8>, Seq<u8>)>::empty(),
            r.reserved_id == 0,
    {
        LAYR { node_id: 0, node_attribs: DICT::create_empty(), reserved_id: 0 }
    }

    /// Appends the framed chunk.
    pub fn write(&self, out: &mut Vec<u8>)
        ensures
            final(out)@ == old(out)@ + chunk(layr_tag(), self.content()),
            final(out)@.len() == old(out)@.len() + 12 + self.content().len(),
    {
        let mut content: Vec<u8> = Vec::new();
        push_i32(&mut content, self.node_id);
        self.node_attribs.write(&mut content);
        push_i32(&mut content, self.reserved_id);
        assert(content@ =~= self.content());
        write_chunk(out, get_id_char('L', 'A', 'Y', 'R'), &content);
    }

    /// The number of content bytes that `write` frames.
    pub fn get_size(&self) -> (r: usize)
        requires
            self.content().len() <= usize::MAX,
        ensures
            r == self.content().len(),
    {
        8 + self.node_attribs.get_size()
    }
}

/// Extent chunk of a voxel model.
pub struct Size {
    pub size_x: i32,
    pub size_y: i32,
    pub size_z: i32,
}

impl Size {
    pub open spec fn content(&self) -> Seq<u8> {
        size_content(self.size_x as int, self.size_y as int, self.size_z as int)
    }

    pub fn create_empty() -> (r: Self)
        ensures
            r.size_x == 0 && r.size_y == 0 && r.size_z == 0,
    {
        Size { size_x: 0, size_y: 0, size_z: 0 }
    }

    /// Appends the framed chunk.
    pub fn write(&self, out: &mut Vec<u8>)
        ensures
            final(out)@ == old(out)@ + chunk(size_tag(), self.content()),
            final(out)@.len() == old(out)@.len() + 12 + self.content().len(),
    {
        let mut content: Vec<u8> = Vec::new();
        push_i32(&mut content, self.size_x);
        push_i32(&mut content, self.size_y);
        push_i32(&mut content, self.size_z);
        assert(content@ =~= self.content());
        write_chunk(out, get_id_char('S', 'I', 'Z', 'E'), &content);
    }

    /// The number of content bytes that `write` frames.
    pub fn get_size(&self) -> (r: usize)
        ensures
            r == self.content().len(),
            r == 12,
    {
        12
    }
}

/// Voxel chunk: quadruples of local x, y, z and color index.
pub struct XYZI {
    pub voxels: Vec<u8>,
}

impl XYZI {
    pub open spec fn content(&self) -> Seq<u8> {
        xyzi_content(self.voxels@)
    }

    pub fn create_empty() -> (r: Self)
        ensures
            r.voxels@ == Seq::<u8>::empty(),
    {
        XYZI { voxels: Vec::new() }
    }

    /// Appends the framed chunk.
    pub fn write(&self, out: &mut Vec<u8>)
        ensures
            final(out)@ == old(out)@ + chunk(xyzi_tag(), self.content()),
            final(out)@.len() == old(out)@.len() + 12 + self.content().len(),
    {
        let mut content: Vec<u8> = Vec::new();
        let n: u32 = ((self.get_num_voxels() as u64) % 0x1_0000_0000u64) as u32;
        push_u32(&mut content, n);
        assert(le32(n as int) == le32((self.voxels@.len() / 4) as int));
        push_all(&mut content, &self.voxels);
        assert(content@ =~= self.content());
        write_chunk(out, get_id_char('X', 'Y', 'Z', 'I'), &content);
    }

    /// The number of whole quadruples held.
    pub fn get_num_voxels(&self) -> (r: usize)
        ensures
            r == self.voxels@.len() / 4,
    {
        self.voxels.len() / 4
    }

    /// The number of content bytes that `write` frames.
    pub fn get_size(&self) -> (r: usize)
        requires
            self.content().len() <= usize::MAX,
        ensures
            r == self.content().len(),
    {
        4 + self.voxels.len()
    }
}

/// Palette chunk of 256 packed colors.
pub struct RGBA {
    colors: Vec<u32>,
}

impl RGBA {
    #[verifier::type_invariant]
    spec fn holds_256(&self) -> bool {
        self.colors@.len() == 256
    }

    pub closed spec fn colors(&self) -> Seq<u32> {
        self.colors@
    }

    pub open spec fn content(&self) -> Seq<u8> {
        rgba_content(self.colors())
    }

    /// A palette of 256 zero colors.
    pub fn create_empty() -> (r: Self)
        ensures
            r.colors() == Seq::new(256, |i: int| 0u32),
            r.colors().len() == 256,
    {
        let mut colors: Vec<u32> = Vec::new();
        while colors.len() < 256
            invariant
                colors@.len() <= 256,
                forall|i: int| 0 <= i < colors@.len() ==> #[trigger] colors@[i] == 0,
            decreases 256 - colors@.len(),
        {
            colors.push(0);
        }
        assert(colors@ =~= Seq::new(256, |i: int| 0u32));
        RGBA { colors }
    }

    /// Sets the color at `index`.
    pub fn set(&mut self, index: usize, color: u32)
        requires
            index < 256,
        ensures
            final(self).colors() == old(self).colors().update(index as int, color),
    {
        proof {
            use_type_invariant(&*self);
        }
        self.colors[index] = color;
    }

    /// Appends the framed chunk.
    pub fn write(&self, out: &mut Vec<u8>)
        ensures
            final(out)@ == old(out)@ + chunk(rgba_tag(), self.content()),
            final(out)@.len() == old(out)@.len() + 12 + self.content().len(),
    {
        let ghost parts = self.colors().map_values(|c: u32| le32(c as int));
        let mut content: Vec<u8> = Vec::new();
        let mut i: usize = 0;
        while i < self.colors.len()
            invariant
                i <= self.colors@.len(),
                parts == self.colors().map_values(|c: u32| le32(c as int)),
                content@ == concat(parts.take(i as int)),
            decreases self.colors@.len() - i,
        {
            push_u32(&mut content, self.colors[i]);
            proof {
                lemma_concat_take(parts, i as int);
            }
            i = i + 1;
        }
        assert(parts.take(i as int) =~= parts);
        write_chunk(out, get_id_char('R', 'G', 'B', 'A'), &content);
    }

    /// The number of content bytes that `write` frames.
    pub fn get_size(&self) -> (r: usize)
        ensures
            r == self.content().len(),
            r == 1024,
    {
        proof {
            use_type_invariant(self);
            lemma_concat_fixed_len(self.colors().map_values(|c: u32| le32(c as int)), 4);
        }
        4 * self.colors.len()
    }
}

} // verus!
