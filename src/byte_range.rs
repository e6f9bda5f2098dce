//! Mapping a 1-based part number to the half-open byte range it covers.
use vstd::arithmetic::div_mod::{
    lemma_fundamental_div_mod, lemma_fundamental_div_mod_converse,
};
use vstd::arithmetic::mul::lemma_mul_inequality;
use vstd::prelude::*;

verus! {

/// The number of parts of `part_size` bytes needed to cover `file_size`
/// bytes: the ceiling of `file_size / part_size`.
pub open spec fn ceil_div(file_size: nat, part_size: nat) -> nat
    recommends
        part_size > 0,
{
    ((file_size + part_size - 1) / part_size as int) as nat
}

/// First byte of part `part_number` (1-based).
pub open spec fn part_offset(part_number: nat, part_size: nat) -> nat {
    ((part_number - 1) * part_size) as nat
}

/// Whether part `part_number` starts inside a file of `total_size` bytes.
pub open spec fn part_in_file(part_number: nat, part_size: nat, total_size: nat) -> bool {
    part_number >= 1 && part_offset(part_number, part_size) < total_size
}

/// Length of part `part_number`: a full part, or what remains of the file.
pub open spec fn part_length(part_number: nat, part_size: nat, total_size: nat) -> nat {
    let rest = total_size - part_offset(part_number, part_size);
    if rest < part_size {
        rest as nat
    } else {
        part_size
    }
}

/// The byte range `[offset, offset + length)` of one part.
#[derive(Debug, Clone, Copy, PartialEq, Eq)]
pub struct PartRange {
    pub offset: u64,
    pub length: u64,
}

/// A part number that does not name a part of the file.
#[derive(Debug, Clone, Copy, PartialEq, Eq)]
pub struct RangeError {
    pub part_number: u32,
}

/// The byte range of part `part_number` of a file of `total_size` bytes cut
/// into parts of `part_size` bytes.
pub fn part_range(part_number: u32, part_size: u64, total_size: u64) -> (r: Result<
    PartRange,
    RangeError,
>)
    requires
        part_size > 0,
    ensures
        r.is_ok() <==> part_in_file(part_number as nat, part_size as nat, total_size as nat),
        r matches Ok(range) ==> range.offset == part_offset(part_number as nat, part_size as nat)
            && range.length == part_length(part_number as nat, part_size as nat, total_size as nat),
        r matches Err(e) ==> e.part_number == part_number,
{
    if part_number == 0 {
        return Err(RangeError { part_number });
    }
    let index = (part_number - 1) as u64;
    let offset = match index.checked_mul(part_size) {
        Some(o) => o,
        None => {
            return Err(RangeError { part_number });
        },
    };
    if offset >= total_size {
        return Err(RangeError { part_number });
    }
    let rest = total_size - offset;
    let length = if rest < part_size {
        rest
    } else {
        part_size
    };
    Ok(PartRange { offset, length })
}

/// The number of parts that cover a file of `file_size` bytes.
pub fn part_count(file_size: u64, part_size: u64) -> (n: u64)
    requires
        part_size > 0,
    ensures
        n == ceil_div(file_size as nat, part_size as nat),
{
    proof {
        lemma_ceil_div_bounds(file_size as nat, part_size as nat);
    }
    let full = file_size / part_size;
    if file_size % part_size == 0 {
        full
    } else {
        proof {
            let fs = file_size as int;
            let ps = part_size as int;
            lemma_fundamental_div_mod(fs, ps);
            assert(full < fs) by (nonlinear_arith)
                requires
                    fs == ps * (fs / ps) + (fs % ps),
                    full == fs / ps,
                    fs % ps > 0,
                    ps > 0,
                    full >= 0,
            ;
        }
        full + 1
    }
}

/// `ceil_div` is the ceiling: `n` parts reach the end of the file and
/// `n - 1` parts do not.
proof fn lemma_ceil_div_bounds(file_size: nat, part_size: nat)
    requires
        part_size > 0,
    ensures
        ceil_div(file_size, part_size) == file_size / part_size + (if file_size % part_size
            == 0 {
            0int
        } else {
            1int
        }),
        ceil_div(file_size, part_size) * part_size >= file_size,
        ceil_div(file_size, part_size) > 0 ==> (ceil_div(file_size, part_size) - 1) * part_size
            < file_size,
{
    let fs = file_size as int;
    let ps = part_size as int;
    let q = fs / ps;
    let r = fs % ps;
    lemma_fundamental_div_mod(fs, ps);
    assert(0 <= r < ps);
    assert(fs == q * ps + r) by (nonlinear_arith)
        requires
            fs == ps * (fs / ps) + (fs % ps),
            q == fs / ps,
            r == fs % ps,
    ;
    if r == 0 {
        lemma_fundamental_div_mod_converse(fs + ps - 1, ps, q, ps - 1);
        assert(q * ps >= fs);
        assert(q > 0 ==> (q - 1) * ps < fs) by (nonlinear_arith)
            requires
                fs == q * ps + r,
                r == 0,
                ps > 0,
        ;
    } else {
        assert(fs + ps - 1 == (q + 1) * ps + (r - 1)) by (nonlinear_arith)
            requires
                fs == q * ps + r,
        ;
        lemma_fundamental_div_mod_converse(fs + ps - 1, ps, q + 1, r - 1);
        assert((q + 1) * ps >= fs) by (nonlinear_arith)
            requires
                fs == q * ps + r,
                r < ps,
        ;
        assert(q * ps < fs);
    }
}

/// Every part from 1 to `ceil_div(file_size, part_size)` starts inside the
/// file and no other does; consecutive parts meet without gap or overlap,
/// the first starts at byte 0, the last ends at `file_size` with
/// `file_size - (n - 1) * part_size` bytes, every part is non-empty and ends
/// inside the file, and byte `b` lies in exactly the part `b / part_size + 1`.
pub proof fn lemma_parts_partition(file_size: nat, part_size: nat)
    requires
        part_size > 0,
    ensures
        ({
            let n = ceil_div(file_size, part_size);
            &&& n * part_size >= file_size
            &&& n > 0 ==> (n - 1) * part_size < file_size
            &&& forall|p: nat| #[trigger]
                part_in_file(p, part_size, file_size) <==> 1 <= p <= n
            &&& forall|p: nat|
                1 <= p <= n ==> 0 < #[trigger] part_length(p, part_size, file_size)
                    && part_offset(p, part_size) + part_length(p, part_size, file_size)
                    <= file_size
            &&& forall|p: nat|
                1 <= p < n ==> part_offset(p, part_size) + #[trigger] part_length(
                    p,
                    part_size,
                    file_size,
                ) == part_offset(p + 1, part_size)
            &&& n > 0 ==> part_offset(1, part_size) == 0
            &&& n > 0 ==> part_offset(n, part_size) + part_length(n, part_size, file_size)
                == file_size
            &&& n > 0 ==> part_length(n, part_size, file_size) == file_size - (n - 1)
                * part_size
            &&& forall|b: nat, p: nat|
                b < file_size && 1 <= p <= n ==> (part_offset(p, part_size) <= b < part_offset(
                    p,
                    part_size,
                ) + #[trigger] part_length(p, part_size, file_size) <==> p == #[trigger] (b
                    / part_size) + 1)
        }),
{
    let n = ceil_div(file_size, part_size);
    let fs = file_size as int;
    let ps = part_size as int;
    lemma_ceil_div_bounds(file_size, part_size);
    assert forall|p: nat| #[trigger]
        part_in_file(p, part_size, file_size) <==> 1 <= p <= n by {
        if p > n {
            lemma_mul_inequality(n as int, p - 1, ps);
        } else if p >= 1 {
            lemma_mul_inequality(p - 1, n - 1, ps);
        }
    }
    assert forall|p: nat| 1 <= p <= n implies part_offset(p, part_size) + #[trigger] part_length(
        p,
        part_size,
        file_size,
    ) == if p < n {
        p * part_size
    } else {
        file_size
    } by {
        lemma_mul_inequality(p - 1, n - 1, ps);
        assert((p - 1) * ps + ps == p * ps) by (nonlinear_arith);
        if p < n {
            lemma_mul_inequality(p as int, n - 1, ps);
        } else {
            assert((n - 1) * ps + ps == n * ps) by (nonlinear_arith);
        }
    }
    assert forall|p: nat| 1 <= p <= n implies 0 < #[trigger] part_length(p, part_size, file_size)
        && part_offset(p, part_size) + part_length(p, part_size, file_size) <= file_size by {
        lemma_mul_inequality(p - 1, n - 1, ps);
        if p < n {
            lemma_mul_inequality(p as int, n - 1, ps);
        }
    }
    assert forall|b: nat, p: nat|
        b < file_size && 1 <= p <= n implies (part_offset(p, part_size) <= b < part_offset(
        p,
        part_size,
    ) + #[trigger] part_length(p, part_size, file_size) <==> p == #[trigger] (b / part_size)
        + 1) by {
        let end = part_offset(p, part_size) + part_length(p, part_size, file_size);
        assert(end == if p < n {
            p * part_size
        } else {
            file_size
        });
        if p < n {
            lemma_mul_inequality(p as int, n - 1, ps);
        }
        assert((p - 1) * ps + ps == p * ps) by (nonlinear_arith);
        let bi = b as int;
        if (p - 1) * ps <= bi < p * ps {
            lemma_fundamental_div_mod_converse(bi, ps, p - 1, bi - (p - 1) * ps);
        }
        if p == b / part_size + 1 {
            lemma_fundamental_div_mod(bi, ps);
            assert(bi == (p - 1) * ps + bi % ps) by (nonlinear_arith)
                requires
                    bi == ps * (bi / ps) + (bi % ps),
                    p - 1 == bi / ps,
            ;
        }
    }
    assert(part_offset(1, part_size) == 0) by (nonlinear_arith);
}

} // verus!
