//! The code buffer: the concatenated bytes of an encoded instruction
//! sequence, together with the ordered list of absolute template-slot
//! offsets, and the patch operation that overwrites each slot with a fresh
//! little-endian 32-bit value.

use vstd::prelude::*;
use vstd::pervasive::VecAdditionalExecFns;
use crate::asm_x86::{
    AsmCode, EncodeError, asm_to_bytes, encode_spec, le_bytes_i32, lemma_encode_slot_in_range,
    spec_le_i32,
};

verus! {

/// Why a patch request is refused.
#[derive(Clone, Copy, Debug, PartialEq, Eq, Structural)]
pub enum PatchError {
    /// The number of supplied values differs from the number of template
    /// slots.
    SlotCountMismatch,
}

/// Every slot offset leaves room for the four bytes it stands for inside a
/// buffer of `len` bytes.
pub open spec fn slots_in_range(slots: Seq<usize>, len: nat) -> bool {
    forall|k: int| 0 <= k < slots.len() ==> #[trigger] slots[k] + 4 <= len
}

/// The slot offsets are strictly increasing and their four-byte ranges are
/// pairwise disjoint.
pub open spec fn slots_separated(slots: Seq<usize>) -> bool {
    forall|k1: int, k2: int|
        0 <= k1 < k2 < slots.len() ==> #[trigger] slots[k1] + 4 <= #[trigger] slots[k2]
}

/// The buffer with the four bytes at `offset` replaced by the little-endian
/// encoding of `v`.
pub open spec fn spec_patch_one(bytes: Seq<u8>, offset: int, v: i32) -> Seq<u8> {
    bytes.update(offset, spec_le_i32(v)[0]).update(offset + 1, spec_le_i32(v)[1]).update(
        offset + 2,
        spec_le_i32(v)[2],
    ).update(offset + 3, spec_le_i32(v)[3])
}

/// The buffer after overwriting, for each pair in order, the four bytes at
/// `slots[k]` with the little-endian encoding of `values[k]`.
pub open spec fn spec_patch(bytes: Seq<u8>, slots: Seq<usize>, values: Seq<i32>) -> Seq<u8>
    decreases slots.len(),
{
    if slots.len() == 0 {
        bytes
    } else {
        spec_patch_one(
            spec_patch(bytes, slots.drop_last(), values.drop_last()),
            slots.last() as int,
            values.last(),
        )
    }
}

/// Some slot's four-byte range contains position `j`.
pub open spec fn slot_covers(slots: Seq<usize>, j: int) -> bool {
    exists|k: int| 0 <= k < slots.len() && #[trigger] slots[k] <= j < slots[k] + 4
}

/// Law: patching overwrites exactly the slot bytes.  The buffer keeps its
/// length, the four bytes at each slot become the little-endian encoding
/// of that slot's value, and every byte outside the slots is identical to
/// the unpatched buffer.
pub proof fn lemma_patch_bytes(bytes: Seq<u8>, slots: Seq<usize>, values: Seq<i32>)
    requires
        slots_in_range(slots, bytes.len()),
        slots_separated(slots),
        values.len() == slots.len(),
    ensures
        spec_patch(bytes, slots, values).len() == bytes.len(),
        forall|k: int, m: int|
            0 <= k < slots.len() && 0 <= m < 4 ==> spec_patch(bytes, slots, values)[slots[k] + m]
                == #[trigger] spec_le_i32(values[k])[m],
        forall|j: int|
            0 <= j < bytes.len() && !slot_covers(slots, j) ==> #[trigger] spec_patch(
                bytes,
                slots,
                values,
            )[j] == bytes[j],
    decreases slots.len(),
{
    if slots.len() == 0 {
    } else {
        let sl = slots.drop_last();
        let vl = values.drop_last();
        let last = slots.len() - 1;
        assert(slots_in_range(sl, bytes.len()));
        assert(slots_separated(sl));
        lemma_patch_bytes(bytes, sl, vl);
        let pre = spec_patch(bytes, sl, vl);
        let off = slots.last() as int;
        let res = spec_patch(bytes, slots, values);
        assert(res == spec_patch_one(pre, off, values.last()));
        assert(off + 4 <= bytes.len());
        assert forall|k: int, m: int| 0 <= k < slots.len() && 0 <= m < 4 implies res[slots[k] + m]
            == #[trigger] spec_le_i32(values[k])[m] by {
            if k == last {
                assert(res[off + m] == spec_le_i32(values.last())[m]);
            } else {
                assert(slots[k] + 4 <= slots[last]);
                assert(res[slots[k] + m] == pre[slots[k] + m]);
                assert(pre[sl[k] + m] == spec_le_i32(vl[k])[m]);
            }
        }
        assert forall|j: int| 0 <= j < bytes.len() && !slot_covers(slots, j) implies #[trigger] res[j]
            == bytes[j] by {
            assert(!(slots[last] <= j < slots[last] + 4));
            if slot_covers(sl, j) {
                let k = choose|k: int| 0 <= k < sl.len() && #[trigger] sl[k] <= j < sl[k] + 4;
                assert(slots[k] == sl[k]);
                assert(slot_covers(slots, j));
            }
            assert(res[j] == pre[j]);
            assert(pre[j] == bytes[j]);
        }
    }
}

/// Law: patching an already patched buffer with a second value list of the
/// right length gives exactly the original buffer patched with the second
/// list; the first patch leaves no trace.
pub proof fn lemma_patch_twice(bytes: Seq<u8>, slots: Seq<usize>, first: Seq<i32>, second: Seq<i32>)
    requires
        slots_in_range(slots, bytes.len()),
        slots_separated(slots),
        first.len() == slots.len(),
        second.len() == slots.len(),
    ensures
        spec_patch(spec_patch(bytes, slots, first), slots, second) == spec_patch(
            bytes,
            slots,
            second,
        ),
{
    lemma_patch_bytes(bytes, slots, first);
    let once = spec_patch(bytes, slots, first);
    lemma_patch_bytes(once, slots, second);
    lemma_patch_bytes(bytes, slots, second);
    let twice = spec_patch(once, slots, second);
    let direct = spec_patch(bytes, slots, second);
    assert forall|j: int| 0 <= j < twice.len() implies twice[j] == direct[j] by {
        if slot_covers(slots, j) {
            let k = choose|k: int| 0 <= k < slots.len() && #[trigger] slots[k] <= j < slots[k] + 4;
            let m = j - slots[k];
            assert(twice[slots[k] + m] == spec_le_i32(second[k])[m]);
            assert(direct[slots[k] + m] == spec_le_i32(second[k])[m]);
        } else {
            assert(twice[j] == once[j]);
            assert(once[j] == bytes[j]);
            assert(direct[j] == bytes[j]);
        }
    }
    assert(twice =~= direct);
}

/// The aggregation of an instruction sequence: all encoded bytes
/// concatenated in instruction order, and each instruction's slot offset
/// made absolute by adding the length of the bytes before it.  The first
/// instruction that cannot be encoded fails the whole aggregation.
pub open spec fn assemble_spec(codes: Seq<AsmCode>) -> Result<(Seq<u8>, Seq<int>), EncodeError>
    decreases codes.len(),
{
    if codes.len() == 0 {
        Ok((Seq::<u8>::empty(), Seq::<int>::empty()))
    } else {
        match assemble_spec(codes.drop_last()) {
            Err(e) => Err(e),
            Ok((bs, ss)) => match encode_spec(codes.last()) {
                Err(e) => Err(e),
                Ok((b, sl)) => Ok(
                    (
                        bs + b,
                        match sl {
                            Some(s) => ss.push(bs.len() + s),
                            None => ss,
                        },
                    ),
                ),
            },
        }
    }
}

proof fn lemma_assemble_prefix_err(codes: Seq<AsmCode>, i: int)
    requires
        0 <= i <= codes.len(),
        assemble_spec(codes.take(i)) is Err,
    ensures
        assemble_spec(codes) == assemble_spec(codes.take(i)),
    decreases codes.len() - i,
{
    if i == codes.len() {
        assert(codes.take(i) =~= codes);
    } else {
        assert(codes.take(i + 1).drop_last() =~= codes.take(i));
        lemma_assemble_prefix_err(codes, i + 1);
    }
}

fn copy_vec<T: Copy>(source: &Vec<T>) -> (r: Vec<T>)
    ensures
        r@ == source@,
{
    let mut r: Vec<T> = Vec::new();
    let mut i: usize = 0;
    while i < source.len()
        invariant
            i <= source.len(),
            r@ == source@.take(i as int),
        decreases source.len() - i,
    {
        r.push(source[i]);
        i = i + 1;
        assert(r@ =~= source@.take(i as int));
    }
    assert(source@.take(source@.len() as int) =~= source@);
    r
}

/// A templated code object: a fixed byte buffer plus the ordered list of
/// absolute template-slot offsets, ready to be patched with runtime values.
#[derive(Clone, Debug)]
pub struct AsmFunction {
    code: Vec<u8>,
    templates: Vec<usize>,
}

impl AsmFunction {
    /// The buffer's bytes.
    pub closed spec fn bytes(&self) -> Seq<u8> {
        self.code@
    }

    /// The absolute byte offsets of the template slots, in instruction
    /// order.
    pub closed spec fn slots(&self) -> Seq<usize> {
        self.templates@
    }

    /// A buffer is well formed when each slot's four bytes lie inside it
    /// and no two slots overlap.  Aggregation always yields a well-formed
    /// buffer.
    pub open spec fn wf(&self) -> bool {
        slots_in_range(self.slots(), self.bytes().len()) && slots_separated(self.slots())
    }

    /// Wrap an already aggregated `(bytes, slot offsets)` pair.
    pub fn new(parts: (Vec<u8>, Vec<usize>)) -> (r: Self)
        ensures
            r.bytes() == parts.0@,
            r.slots() == parts.1@,
    {
        let (code, templates) = parts;
        AsmFunction { code, templates }
    }

    /// The raw machine-code bytes.
    pub fn as_bytes(&self) -> (r: &[u8])
        ensures
            r@ == self.bytes(),
    {
        self.code.as_slice()
    }

    /// The absolute template-slot offsets, in instruction order.
    pub fn slot_offsets(&self) -> (r: &Vec<usize>)
        ensures
            r@ == self.slots(),
    {
        &self.templates
    }

    /// Overwrite, for each slot in order, the four bytes at its offset with
    /// the little-endian encoding of the value supplied for it.  No other
    /// byte changes and the buffer keeps its length.
    pub fn apply_templates_mut(&mut self, values: &Vec<i32>)
        requires
            slots_in_range(old(self).slots(), old(self).bytes().len()),
            values@.len() == old(self).slots().len(),
        ensures
            final(self).bytes() == spec_patch(old(self).bytes(), old(self).slots(), values@),
            final(self).slots() == old(self).slots(),
    {
        let mut i: usize = 0;
        while i < values.len()
            invariant
                i <= values.len(),
                values@.len() == self.templates@.len(),
                self.templates@ == old(self).templates@,
                self.code@.len() == old(self).code@.len(),
                slots_in_range(self.templates@, self.code@.len()),
                self.code@ == spec_patch(
                    old(self).code@,
                    self.templates@.take(i as int),
                    values@.take(i as int),
                ),
            decreases values.len() - i,
        {
            let offset = self.templates[i];
            let le = le_bytes_i32(values[i]);
            let buffer_len = self.code.len();
            assert(offset + 4 <= buffer_len);
            self.code.set(offset, le[0]);
            self.code.set(offset + 1, le[1]);
            self.code.set(offset + 2, le[2]);
            self.code.set(offset + 3, le[3]);
            i = i + 1;
            proof {
                assert(self.templates@.take(i as int).drop_last() =~= self.templates@.take(
                    i as int - 1,
                ));
                assert(values@.take(i as int).drop_last() =~= values@.take(i as int - 1));
            }
        }
        assert(self.templates@.take(values@.len() as int) =~= self.templates@);
        assert(values@.take(values@.len() as int) =~= values@);
    }

    /// The pure patch: a new buffer whose slots hold the supplied values,
    /// leaving this one untouched.  A value list of the wrong length is
    /// rejected and nothing is produced.
    pub fn apply_templates(&self, values: &Vec<i32>) -> (r: Result<Self, PatchError>)
        requires
            slots_in_range(self.slots(), self.bytes().len()),
        ensures
            r is Ok <==> values@.len() == self.slots().len(),
            r is Ok ==> r->Ok_0.bytes() == spec_patch(self.bytes(), self.slots(), values@)
                && r->Ok_0.slots() == self.slots(),
            r is Err ==> r->Err_0 == PatchError::SlotCountMismatch,
    {
        if values.len() != self.templates.len() {
            Err(PatchError::SlotCountMismatch)
        } else {
            let mut patched = AsmFunction {
                code: copy_vec(&self.code),
                templates: copy_vec(&self.templates),
            };
            patched.apply_templates_mut(values);
            Ok(patched)
        }
    }
}

/// Aggregate an instruction sequence into a templated code object: the
/// encoded bytes of all instructions, concatenated in order, and the
/// absolute offset of every template slot.  The first instruction that the
/// encoder refuses fails the aggregation with that encoder's error.
pub fn asm_code(codes: &Vec<AsmCode>) -> (r: Result<AsmFunction, EncodeError>)
    ensures
        r is Ok <==> assemble_spec(codes@) is Ok,
        r is Ok ==> r->Ok_0.bytes() == assemble_spec(codes@)->Ok_0.0,
        r is Ok ==> r->Ok_0.slots().len() == assemble_spec(codes@)->Ok_0.1.len() && (forall|k: int|
            0 <= k < r->Ok_0.slots().len() ==> r->Ok_0.slots()[k] as int == assemble_spec(
                codes@,
            )->Ok_0.1[k]),
        r is Ok ==> r->Ok_0.wf(),
        r is Err ==> r->Err_0 == assemble_spec(codes@)->Err_0,
{
    let mut code: Vec<u8> = Vec::new();
    let mut templates: Vec<usize> = Vec::new();
    let mut idx: usize = 0;
    while idx < codes.len()
        invariant
            idx <= codes.len(),
            assemble_spec(codes@.take(idx as int)) is Ok,
            code@ == assemble_spec(codes@.take(idx as int))->Ok_0.0,
            templates@.len() == assemble_spec(codes@.take(idx as int))->Ok_0.1.len(),
            forall|k: int|
                0 <= k < templates@.len() ==> templates@[k] as int == assemble_spec(
                    codes@.take(idx as int),
                )->Ok_0.1[k],
            slots_in_range(templates@, code@.len()),
            slots_separated(templates@),
        decreases codes.len() - idx,
    {
        proof {
            assert(codes@.take(idx as int + 1).drop_last() =~= codes@.take(idx as int));
            assert(codes@.take(idx as int + 1).last() == codes@[idx as int]);
            lemma_encode_slot_in_range(codes@[idx as int]);
        }
        match asm_to_bytes(&codes[idx]) {
            Err(e) => {
                proof {
                    lemma_assemble_prefix_err(codes@, idx as int + 1);
                }
                return Err(e);
            },
            Ok((mut encoded, slot)) => {
                let pre_len = code.len();
                code.append(&mut encoded);
                let new_len = code.len();
                match slot {
                    Some(local) => {
                        assert(pre_len + local + 4 <= new_len);
                        templates.push(pre_len + local);
                    },
                    None => {},
                }
                idx = idx + 1;
            },
        }
    }
    assert(codes@.take(codes@.len() as int) =~= codes@);
    Ok(AsmFunction { code, templates })
}

} // verus!
