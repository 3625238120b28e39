//! Skip fields recovered from the EMDF sync words found in a frame.

use crate::bitreader::{BitCursor, BitReader, MAX_READER_BYTES};
use crate::syncframe::emdf::{blocks_view, scan_emdf_blocks, spec_scan_emdf, EmdfBlockModel};
use crate::syncframe::types::SkipFieldInfo;
use vstd::arithmetic::power2::lemma2_to64;
use vstd::prelude::*;

verus! {

/// Mathematical view of [`SkipFieldInfo`].
pub struct SkipFieldModel {
    pub block_index: Option<usize>,
    pub bit_offset: usize,
    pub bytes: Seq<u8>,
}

impl View for SkipFieldInfo {
    type V = SkipFieldModel;

    open spec fn view(&self) -> SkipFieldModel {
        SkipFieldModel { block_index: self.block_index, bit_offset: self.bit_offset, bytes: self.bytes@ }
    }
}

/// View of a sequence of skip fields.
pub open spec fn skip_fields_view(fields: Seq<SkipFieldInfo>) -> Seq<SkipFieldModel> {
    fields.map_values(|f: SkipFieldInfo| f@)
}

/// The skip field whose data starts with the EMDF sync word at byte `sync_offset`: the
/// `skiple` flag and 9-bit `skipl` byte count sit in the ten bits before it, and the field must
/// hold at least one EMDF block.
pub open spec fn spec_recover_skip_field(frame: Seq<u8>, sync_offset: int) -> Option<Seq<u8>> {
    let sync_bit = sync_offset * 8;
    if sync_bit < 10 {
        None
    } else {
        let c = BitCursor { data: frame, pos: sync_bit - 10, limit: (frame.len() * 8) as int };
        match c.read_flag() {
            None => None,
            Some((present, c1)) => if !present {
                None
            } else {
                match c1.read(9) {
                    None => None,
                    Some((length, c2)) => match c2.read_bytes(length) {
                        None => None,
                        Some((bytes, _)) => if bytes.len() < 2 || bytes[0] != 0x58 || bytes[1]
                            != 0x38 {
                            None
                        } else if spec_scan_emdf(bytes, 0, Seq::empty()).len() == 0 {
                            None
                        } else {
                            Some(bytes)
                        },
                    },
                }
            },
        }
    }
}

/// Recovers the skip field that carries the EMDF block whose sync word is at byte
/// `sync_offset`.
pub fn recover_skip_field_before_offset(frame: &[u8], sync_offset: usize) -> (r: Option<
    SkipFieldInfo,
>)
    requires
        frame@.len() <= MAX_READER_BYTES,
    ensures
        match spec_recover_skip_field(frame@, sync_offset as int) {
            None => r.is_none(),
            Some(bytes) => r matches Some(f) && f@ == (SkipFieldModel {
                block_index: None,
                bit_offset: (sync_offset * 8) as usize,
                bytes,
            }),
        },
        r matches Some(f) ==> f.bytes@.len() < 512,
{
    let sync_bit_offset = sync_offset.checked_mul(8)?;
    let header_bit_offset = sync_bit_offset.checked_sub(10)?;
    let mut reader = BitReader::with_offset(frame, header_bit_offset);
    if !reader.read_bit()? {
        return None;
    }
    proof {
        crate::bitreader::lemma_bits_value_bound(frame@, header_bit_offset + 1, 9);
        lemma2_to64();
    }
    let skip_length = reader.read_bits(9)? as usize;
    let bytes = reader.read_bytes(skip_length)?;
    if bytes.len() != skip_length || bytes.len() < 2 || bytes[0] != 0x58 || bytes[1] != 0x38 {
        return None;
    }
    let found = scan_emdf_blocks(bytes.as_slice());
    if found.len() == 0 {
        return None;
    }
    Some(SkipFieldInfo { block_index: None, bit_offset: sync_bit_offset, bytes })
}

/// The skip fields recovered, in order, for the EMDF blocks `blocks` of `frame`.
pub open spec fn spec_recover_all(frame: Seq<u8>, blocks: Seq<EmdfBlockModel>) -> Seq<
    SkipFieldModel,
>
    decreases blocks.len(),
{
    if blocks.len() == 0 {
        Seq::empty()
    } else {
        let rest = spec_recover_all(frame, blocks.drop_last());
        let b = blocks.last();
        match spec_recover_skip_field(frame, b.sync_offset as int) {
            None => rest,
            Some(bytes) => rest.push(
                SkipFieldModel {
                    block_index: None,
                    bit_offset: (b.sync_offset * 8) as usize,
                    bytes,
                },
            ),
        }
    }
}

/// Block offsets strictly increase along `blocks`.
pub open spec fn offsets_increase(blocks: Seq<EmdfBlockModel>) -> bool {
    forall|i: int, j: int|
        0 <= i < j < blocks.len() ==> #[trigger] blocks[i].sync_offset < #[trigger] blocks[j].sync_offset
}

/// The EMDF blocks found by a scan lie inside the data, in strictly increasing order.
pub proof fn lemma_scan_offsets_increase(data: Seq<u8>, offset: int, acc: Seq<EmdfBlockModel>)
    requires
        data.len() <= MAX_READER_BYTES,
        0 <= offset <= data.len(),
        offsets_increase(acc),
        forall|i: int| 0 <= i < acc.len() ==> #[trigger] acc[i].sync_offset < offset,
    ensures
        offsets_increase(spec_scan_emdf(data, offset, acc)),
        forall|i: int|
            0 <= i < spec_scan_emdf(data, offset, acc).len() ==> #[trigger] spec_scan_emdf(
                data,
                offset,
                acc,
            )[i].sync_offset < data.len(),
    decreases data.len() - offset,
{
    if offset + 4 > data.len() {
    } else if data[offset] == 0x58 && data[offset + 1] == 0x38
        && crate::syncframe::emdf::spec_parse_emdf_block(data, offset, acc.len() as usize) is Some {
        let (block, next) = crate::syncframe::emdf::spec_parse_emdf_block(
            data,
            offset,
            acc.len() as usize,
        )->Some_0;
        crate::syncframe::emdf::lemma_emdf_block_advances(data, offset, acc.len() as usize);
        let acc2 = acc.push(block);
        assert(block.sync_offset == offset);
        assert forall|i: int| 0 <= i < acc2.len() implies #[trigger] acc2[i].sync_offset < next by {
            if i < acc.len() {
                assert(acc2[i] == acc[i]);
            }
        }
        assert forall|i: int, j: int| 0 <= i < j < acc2.len() implies #[trigger] acc2[i].sync_offset
            < #[trigger] acc2[j].sync_offset by {
            if j < acc.len() {
                assert(acc2[i] == acc[i] && acc2[j] == acc[j]);
            } else {
                assert(acc2[i] == acc[i]);
            }
        }
        lemma_scan_offsets_increase(data, next, acc2);
    } else {
        lemma_scan_offsets_increase(data, offset + 1, acc);
    }
}

/// Skip fields recovered from increasing block offsets have strictly increasing bit offsets,
/// none past the last block's.
pub proof fn lemma_recover_all_increasing(frame: Seq<u8>, blocks: Seq<EmdfBlockModel>)
    requires
        offsets_increase(blocks),
        forall|i: int| 0 <= i < blocks.len() ==> #[trigger] blocks[i].sync_offset < MAX_READER_BYTES,
    ensures
        forall|i: int, j: int|
            0 <= i < j < spec_recover_all(frame, blocks).len() ==> #[trigger] spec_recover_all(
                frame,
                blocks,
            )[i].bit_offset < #[trigger] spec_recover_all(frame, blocks)[j].bit_offset,
        blocks.len() > 0 ==> forall|i: int|
            0 <= i < spec_recover_all(frame, blocks).len() ==> #[trigger] spec_recover_all(
                frame,
                blocks,
            )[i].bit_offset <= blocks.last().sync_offset * 8,
    decreases blocks.len(),
{
    if blocks.len() > 0 {
        let init = blocks.drop_last();
        assert forall|i: int, j: int| 0 <= i < j < init.len() implies #[trigger] init[i].sync_offset
            < #[trigger] init[j].sync_offset by {
            assert(init[i] == blocks[i] && init[j] == blocks[j]);
        }
        assert forall|i: int| 0 <= i < init.len() implies #[trigger] init[i].sync_offset
            < MAX_READER_BYTES by {
            assert(init[i] == blocks[i]);
        }
        lemma_recover_all_increasing(frame, init);
        let rest = spec_recover_all(frame, init);
        let b = blocks.last();
        assert(b.sync_offset < MAX_READER_BYTES);
        if init.len() > 0 {
            assert(init.last() == blocks[blocks.len() - 2]);
            assert(init.last().sync_offset < b.sync_offset);
        }
        assert(init.len() == 0 ==> rest.len() == 0);
    }
}

/// Recovers a skip field for each EMDF block found in `frame`; `None` when there is none.
/// The fields come out in strictly increasing bit order.
pub fn recover_skip_fields_from_emdf_markers(frame: &[u8]) -> (r: Option<Vec<SkipFieldInfo>>)
    requires
        frame@.len() <= MAX_READER_BYTES,
    ensures
        ({
            let all = spec_recover_all(frame@, spec_scan_emdf(frame@, 0, Seq::empty()));
            match r {
                None => all.len() == 0,
                Some(v) => all.len() > 0 && skip_fields_view(v@) == all,
            }
        }),
        r matches Some(v) ==> forall|i: int, j: int|
            0 <= i < j < v@.len() ==> #[trigger] v@[i].bit_offset < #[trigger] v@[j].bit_offset,
        r matches Some(v) ==> v@.len() <= frame@.len() && forall|i: int|
            0 <= i < v@.len() ==> (#[trigger] v@[i]).bytes@.len() < 512,
{
    let blocks = scan_emdf_blocks(frame);
    let ghost bv = blocks_view(blocks@);
    proof {
        lemma_scan_offsets_increase(frame@, 0, Seq::empty());
        lemma_recover_all_increasing(frame@, bv);
    }
    let mut recovered: Vec<SkipFieldInfo> = Vec::new();
    let mut k: usize = 0;
    assert(bv.take(0) =~= Seq::empty());
    assert(skip_fields_view(recovered@) =~= Seq::empty());
    while k < blocks.len()
        invariant
            frame@.len() <= MAX_READER_BYTES,
            bv == blocks_view(blocks@),
            k <= blocks@.len(),
            blocks@.len() <= frame@.len(),
            recovered@.len() <= k,
            forall|i: int| 0 <= i < recovered@.len() ==> (#[trigger] recovered@[i]).bytes@.len() < 512,
            skip_fields_view(recovered@) == spec_recover_all(frame@, bv.take(k as int)),
        decreases blocks@.len() - k,
    {
        let ghost before = skip_fields_view(recovered@);
        assert(bv.take(k + 1).drop_last() =~= bv.take(k as int));
        assert(bv.take(k + 1).last() == blocks@[k as int]@);
        match recover_skip_field_before_offset(frame, blocks[k].sync_offset) {
            Some(f) => {
                recovered.push(f);
                assert(skip_fields_view(recovered@) =~= before.push(f@));
            },
            None => {},
        }
        k += 1;
    }
    assert(bv.take(k as int) =~= bv);
    if recovered.len() == 0 {
        None
    } else {
        proof {
            assert forall|i: int, j: int| 0 <= i < j < recovered@.len() implies #[trigger] recovered@[i].bit_offset
                < #[trigger] recovered@[j].bit_offset by {
                let all = spec_recover_all(frame@, bv);
                assert(all[i].bit_offset < all[j].bit_offset);
                assert(skip_fields_view(recovered@)[i] == recovered@[i]@);
                assert(skip_fields_view(recovered@)[j] == recovered@[j]@);
            }
        }
        Some(recovered)
    }
}

} // verus!
