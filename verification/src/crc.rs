use vstd::prelude::*;

verus! {

/// One shift step of the bit-reflected CRC-32: shift right and fold in
/// the reversed ISO-HDLC polynomial when the low bit was set.
pub open spec fn crc32_step(crc: u32) -> u32 {
    if crc & 1 == 1 {
        (crc >> 1) ^ 0xEDB88320u32
    } else {
        crc >> 1
    }
}

/// `n` shift steps applied in order.
pub open spec fn crc32_steps(crc: u32, n: nat) -> u32
    decreases n,
{
    if n == 0 {
        crc
    } else {
        crc32_steps(crc32_step(crc), (n - 1) as nat)
    }
}

/// Folding one byte into the running CRC: xor it in, then shift eight times.
pub open spec fn crc32_update(crc: u32, byte: u8) -> u32 {
    crc32_steps(crc ^ (byte as u32), 8)
}

/// The running CRC after folding in every byte of `data`, left to right.
pub open spec fn crc32_fold(crc: u32, data: Seq<u8>) -> u32
    decreases data.len(),
{
    if data.len() == 0 {
        crc
    } else {
        crc32_fold(crc32_update(crc, data[0]), data.skip(1))
    }
}

/// CRC-32/ISO-HDLC of a byte sequence: initial value `0xFFFFFFFF`,
/// reflected polynomial `0xEDB88320`, final complement.
pub open spec fn spec_crc32(data: Seq<u8>) -> u32 {
    !crc32_fold(0xFFFFFFFFu32, data)
}

proof fn lemma_crc32_steps_succ(crc: u32, n: nat)
    ensures
        crc32_steps(crc, n + 1) == crc32_step(crc32_steps(crc, n)),
    decreases n,
{
    if n == 0 {
        assert(crc32_steps(crc, 1) == crc32_steps(crc32_step(crc), 0));
    } else {
        lemma_crc32_steps_succ(crc32_step(crc), (n - 1) as nat);
        assert(crc32_steps(crc, n + 1) == crc32_steps(crc32_step(crc), n));
        assert(crc32_steps(crc, n) == crc32_steps(crc32_step(crc), (n - 1) as nat));
    }
}

/// Folding a sequence extended by one byte folds that byte in last.
pub proof fn lemma_crc32_fold_snoc(crc: u32, s: Seq<u8>, b: u8)
    ensures
        crc32_fold(crc, s.push(b)) == crc32_update(crc32_fold(crc, s), b),
    decreases s.len(),
{
    if s.len() == 0 {
        assert(s.push(b)[0] == b);
        assert(s.push(b).skip(1) =~= Seq::<u8>::empty());
        assert(crc32_fold(crc, s.push(b)) == crc32_fold(
            crc32_update(crc, b),
            s.push(b).skip(1),
        ));
        assert(crc32_fold(crc32_update(crc, b), Seq::<u8>::empty()) == crc32_update(crc, b));
    } else {
        assert(s.push(b)[0] == s[0]);
        assert(s.push(b).skip(1) =~= s.skip(1).push(b));
        assert(crc32_fold(crc, s.push(b)) == crc32_fold(
            crc32_update(crc, s[0]),
            s.skip(1).push(b),
        ));
        lemma_crc32_fold_snoc(crc32_update(crc, s[0]), s.skip(1), b);
        assert(crc32_fold(crc, s) == crc32_fold(crc32_update(crc, s[0]), s.skip(1)));
    }
}

/// Computes the CRC-32/ISO-HDLC checksum of `data`.
pub fn crc32b(data: &[u8]) -> (r: u32)
    ensures
        r == spec_crc32(data@),
{
    let mut crc: u32 = 0xFFFFFFFF;
    let mut i: usize = 0;
    while i < data.len()
        invariant
            i <= data@.len(),
            crc == crc32_fold(0xFFFFFFFFu32, data@.take(i as int)),
        decreases data@.len() - i,
    {
        let byte = data[i];
        let ghost pre = crc;
        crc = crc ^ (byte as u32);
        let ghost x0 = crc;
        let mut j: usize = 0;
        while j < 8
            invariant
                j <= 8,
                crc == crc32_steps(x0, j as nat),
            decreases 8 - j,
        {
            proof {
                lemma_crc32_steps_succ(x0, j as nat);
            }
            crc = if crc & 1 == 1 {
                (crc >> 1) ^ 0xEDB88320
            } else {
                crc >> 1
            };
            j = j + 1;
        }
        proof {
            assert(crc == crc32_update(pre, data@[i as int]));
            lemma_crc32_fold_snoc(0xFFFFFFFFu32, data@.take(i as int), data@[i as int]);
            assert(data@.take(i as int).push(data@[i as int]) =~= data@.take(i as int + 1));
        }
        i = i + 1;
    }
    proof {
        assert(data@.take(data@.len() as int) =~= data@);
    }
    !crc
}

} // verus!
