use crate::bits::{is_bit_char, is_bit_string, take_at_most};
use crate::errors::EntropyError;
use vstd::arithmetic::mul::lemma_mul_is_distributive_sub_other_way;
use vstd::prelude::*;
use vstd::string::{StrSliceExecFns, StringExecFns};

verus! {

/// The pixel buffers of a frame batch, as sequences of bytes.
pub open spec fn batch_view(photos: Seq<Vec<u8>>) -> Seq<Seq<u8>> {
    Seq::new(photos.len(), |i: int| photos[i]@)
}

/// A usable frame batch: at least one frame, and every buffer of the same
/// length as the first.
pub open spec fn well_shaped(batch: Seq<Seq<u8>>) -> bool {
    &&& batch.len() > 0
    &&& forall|i: int| 0 <= i < batch.len() ==> (#[trigger] batch[i]).len() == batch[0].len()
}

/// The entropy bit drawn from one pair of samples: the least significant bit
/// of their XOR, as a character.
pub open spec fn mix_char(a: u8, b: u8) -> char {
    if (a ^ b) & 1 == 1 {
        '1'
    } else {
        '0'
    }
}

/// The bits one adjacent frame pair contributes, position by position.
pub open spec fn pair_bits(prev: Seq<u8>, cur: Seq<u8>) -> Seq<char> {
    Seq::new(prev.len(), |j: int| mix_char(prev[j], cur[j]))
}

/// The bitstream drawn from the first `pairs + 1` frames of a batch: the
/// marker bit followed by the contribution of each adjacent frame pair, in
/// capture order.
pub open spec fn mixed_bits_upto(batch: Seq<Seq<u8>>, pairs: int) -> Seq<char>
    decreases pairs,
{
    if pairs <= 0 {
        seq!['1']
    } else {
        mixed_bits_upto(batch, pairs - 1) + pair_bits(batch[pairs - 1], batch[pairs])
    }
}

/// The entropy bitstream of a whole batch.
pub open spec fn mixed_bits(batch: Seq<Seq<u8>>) -> Seq<char> {
    mixed_bits_upto(batch, batch.len() - 1)
}

/// Shape of every prefix of the bitstream: its length grows by one frame's
/// pixel count per pair, it starts with the marker bit, and it holds binary
/// digits only.
pub proof fn lemma_mixed_upto_shape(batch: Seq<Seq<u8>>, pairs: int)
    requires
        well_shaped(batch),
        0 <= pairs < batch.len(),
    ensures
        mixed_bits_upto(batch, pairs).len() == 1 + pairs * batch[0].len(),
        mixed_bits_upto(batch, pairs)[0] == '1',
        is_bit_string(mixed_bits_upto(batch, pairs)),
    decreases pairs,
{
    let w = batch[0].len() as int;
    if pairs <= 0 {
        assert(mixed_bits_upto(batch, pairs) =~= seq!['1']);
    } else {
        lemma_mixed_upto_shape(batch, pairs - 1);
        let head = mixed_bits_upto(batch, pairs - 1);
        let tail = pair_bits(batch[pairs - 1], batch[pairs]);
        assert(tail.len() == w);
        assert((pairs - 1) * w == pairs * w - 1 * w) by {
            lemma_mul_is_distributive_sub_other_way(w, pairs, 1);
        }
        assert(head.len() + tail.len() == 1 + pairs * w);
        assert forall|i: int| 0 <= i < head.len() + tail.len() implies is_bit_char(
            #[trigger] (head + tail)[i],
        ) by {
            if i >= head.len() {
                assert((head + tail)[i] == tail[i - head.len()]);
            }
        }
    }
}

/// The shape facts for the full bitstream of a usable batch: length
/// `1 + (n - 1) * pixel_count`, a leading `'1'`, and binary digits
/// throughout.
pub proof fn lemma_mixed_bits_shape(batch: Seq<Seq<u8>>)
    requires
        well_shaped(batch),
    ensures
        mixed_bits(batch).len() == 1 + (batch.len() - 1) * batch[0].len(),
        mixed_bits(batch)[0] == '1',
        is_bit_string(mixed_bits(batch)),
{
    lemma_mixed_upto_shape(batch, batch.len() - 1);
}

/// The mixer is deterministic: it reads nothing but the sample values, so
/// batches that agree sample for sample yield the same bitstream.
pub proof fn lemma_mixer_deterministic(b1: Seq<Seq<u8>>, b2: Seq<Seq<u8>>)
    requires
        b1.len() == b2.len(),
        forall|i: int| 0 <= i < b1.len() ==> #[trigger] b1[i] =~= b2[i],
    ensures
        mixed_bits(b1) == mixed_bits(b2),
{
    assert(b1 =~= b2);
}

/// Entropy mixer: XOR each pair of consecutive frames sample by sample,
/// keep each least significant bit after a single synthetic `'1'` marker
/// bit, and truncate the stream to at most `trim` characters.
///
/// Fails exactly on batches that are empty or whose buffers disagree in
/// length, and then produces no partial output.
pub fn entropy(photos: Vec<Vec<u8>>, trim: u64) -> (r: Result<String, EntropyError>)
    ensures
        r is Ok <==> well_shaped(batch_view(photos@)),
        r is Ok ==> r->Ok_0@ == take_at_most(mixed_bits(batch_view(photos@)), trim as int),
        r is Err ==> r->Err_0 == EntropyError::ShapeMismatch,
{
    let ghost batch = batch_view(photos@);
    if photos.len() == 0 {
        return Err(EntropyError::ShapeMismatch);
    }
    let width = photos[0].len();
    let mut i: usize = 1;
    while i < photos.len()
        invariant
            1 <= i <= photos.len(),
            photos.len() > 0,
            batch == batch_view(photos@),
            width == batch[0].len(),
            forall|k: int| 0 <= k < i ==> (#[trigger] batch[k]).len() == width,
        decreases photos.len() - i,
    {
        if photos[i].len() != width {
            assert(batch[i as int].len() != batch[0].len());
            return Err(EntropyError::ShapeMismatch);
        }
        i += 1;
    }
    assert(well_shaped(batch));

    let mut skewed = String::from_str("1");
    proof {
        reveal_strlit("1");
        assert(skewed@ =~= mixed_bits_upto(batch, 0));
    }
    let mut i: usize = 1;
    while i < photos.len()
        invariant
            1 <= i <= photos.len(),
            batch == batch_view(photos@),
            well_shaped(batch),
            width == batch[0].len(),
            skewed@ == mixed_bits_upto(batch, i - 1),
        decreases photos.len() - i,
    {
        let ghost pair = pair_bits(batch[i - 1], batch[i as int]);
        let mut j: usize = 0;
        while j < width
            invariant
                1 <= i < photos.len(),
                0 <= j <= width,
                batch == batch_view(photos@),
                well_shaped(batch),
                width == batch[0].len(),
                pair == pair_bits(batch[i - 1], batch[i as int]),
                skewed@ == mixed_bits_upto(batch, i - 1) + pair.take(j as int),
            decreases width - j,
        {
            let pixel1 = photos[i - 1][j];
            let pixel2 = photos[i][j];
            let xor_result = pixel1 ^ pixel2;
            let ghost before = skewed@;
            if xor_result & 1 == 1 {
                skewed.append("1");
            } else {
                skewed.append("0");
            }
            proof {
                reveal_strlit("1");
                reveal_strlit("0");
                assert(pair[j as int] == mix_char(pixel1, pixel2));
                assert(skewed@ =~= before.push(pair[j as int]));
                assert(pair.take(j as int).push(pair[j as int]) =~= pair.take(j + 1));
                assert(skewed@ =~= mixed_bits_upto(batch, i - 1) + pair.take(j + 1));
            }
            j += 1;
        }
        proof {
            assert(pair.take(width as int) =~= pair);
            assert(skewed@ == mixed_bits_upto(batch, i as int));
        }
        i += 1;
    }
    assert(skewed@ == mixed_bits(batch));

    let total = skewed.as_str().unicode_len();
    let keep: usize = if trim >= total as u64 {
        total
    } else {
        trim as usize
    };
    let trimmed = skewed.as_str().substring_char(0, keep);
    let out = String::from_str(trimmed);
    proof {
        assert(out@ =~= take_at_most(mixed_bits(batch), trim as int));
    }
    Ok(out)
}

} // verus!
