//! Code records: register and argument counts, the instruction bytes, and
//! the try/catch tables that follow them.

use vstd::prelude::*;

use crate::error::AbcError;
use crate::leb128::{has_uleb_at, read_uleb128, uleb_end_at, uleb_err_at, uleb_val_at};

verus! {

/// End offset of `n` consecutive ULEB128 integers starting at `off`.
pub open spec fn ulebs_end(buf: Seq<u8>, off: int, n: nat) -> Result<int, AbcError>
    decreases n,
{
    if n == 0 {
        Ok(off)
    } else if !has_uleb_at(buf, off) {
        Err(uleb_err_at(buf, off))
    } else {
        ulebs_end(buf, uleb_end_at(buf, off), (n - 1) as nat)
    }
}

/// End offset of `n` catch clauses (three ULEB128 words each) starting at
/// `off`.
pub open spec fn catches_end(buf: Seq<u8>, off: int, n: nat) -> Result<int, AbcError>
    decreases n,
{
    if n == 0 {
        Ok(off)
    } else {
        match ulebs_end(buf, off, 3) {
            Err(e) => Err(e),
            Ok(e) => catches_end(buf, e, (n - 1) as nat),
        }
    }
}

/// End offset of `n` try blocks starting at `off`: three ULEB128 words,
/// then the catch clauses counted by the third word.
pub open spec fn tries_end(buf: Seq<u8>, off: int, n: nat) -> Result<int, AbcError>
    decreases n,
{
    if n == 0 {
        Ok(off)
    } else {
        match ulebs_end(buf, off, 3) {
            Err(e) => Err(e),
            Ok(e) => {
                let ncatch = uleb_val_at(buf, uleb_end_at(buf, uleb_end_at(buf, off)));
                match catches_end(buf, e, ncatch) {
                    Err(e2) => Err(e2),
                    Ok(e3) => tries_end(buf, e3, (n - 1) as nat),
                }
            },
        }
    }
}

/// Continues a try-block walk after its catch clauses.
pub open spec fn tries_after_catches(buf: Seq<u8>, r: Result<int, AbcError>, rest: nat) -> Result<
    int,
    AbcError,
> {
    match r {
        Err(e) => Err(e),
        Ok(e3) => tries_end(buf, e3, rest),
    }
}

/// End offset of the whole code record at `off`: four ULEB128 counts, the
/// instruction bytes, then the try blocks.
pub open spec fn code_end(buf: Seq<u8>, off: int) -> Result<int, AbcError> {
    match ulebs_end(buf, off, 4) {
        Err(e) => Err(e),
        Ok(body) => {
            let csize = uleb_val_at(buf, uleb_end_at(buf, uleb_end_at(buf, off)));
            let tsize = uleb_val_at(
                buf,
                uleb_end_at(buf, uleb_end_at(buf, uleb_end_at(buf, off))),
            );
            if body + csize > buf.len() {
                Err(AbcError::OutOfBounds)
            } else {
                tries_end(buf, body + csize, tsize)
            }
        },
    }
}

/// The instruction bytes of the code record at `off`: the `code_size`
/// bytes after the four counts.  Meaningful when `code_end` succeeds.
pub open spec fn code_instr(buf: Seq<u8>, off: int) -> Seq<u8> {
    let body = ulebs_end(buf, off, 4)->Ok_0;
    let csize = uleb_val_at(buf, uleb_end_at(buf, uleb_end_at(buf, off)));
    buf.subrange(body, body + csize)
}

/// The offset of the try-block table of the code record at `off`: right
/// after the instruction bytes.  Meaningful when `code_end` succeeds.
pub open spec fn code_tries_off(buf: Seq<u8>, off: int) -> int {
    ulebs_end(buf, off, 4)->Ok_0 + uleb_val_at(buf, uleb_end_at(buf, uleb_end_at(buf, off)))
}

/// Walking `k` catch clauses and then `n - k` more is walking `n`.
pub proof fn lemma_catches_end_split(buf: Seq<u8>, d: int, e: int, k: nat, n: nat)
    requires
        k <= n,
        catches_end(buf, d, k) == Ok::<int, AbcError>(e),
    ensures
        catches_end(buf, d, n) == catches_end(buf, e, (n - k) as nat),
    decreases k,
{
    if k > 0 {
        match ulebs_end(buf, d, 3) {
            Ok(e1) => {
                lemma_catches_end_split(buf, e1, e, (k - 1) as nat, (n - 1) as nat);
            },
            Err(_) => {},
        }
    }
}

/// Walking `k` try blocks and then `n - k` more is walking `n`.
pub proof fn lemma_tries_end_split(buf: Seq<u8>, d: int, e: int, k: nat, n: nat)
    requires
        k <= n,
        tries_end(buf, d, k) == Ok::<int, AbcError>(e),
    ensures
        tries_end(buf, d, n) == tries_end(buf, e, (n - k) as nat),
    decreases k,
{
    if k > 0 {
        match ulebs_end(buf, d, 3) {
            Ok(e1) => {
                let ncatch = uleb_val_at(buf, uleb_end_at(buf, uleb_end_at(buf, d)));
                match catches_end(buf, e1, ncatch) {
                    Ok(e3) => {
                        lemma_tries_end_split(buf, e3, e, (k - 1) as nat, (n - 1) as nat);
                    },
                    Err(_) => {},
                }
            },
            Err(_) => {},
        }
    }
}

/// One catch clause of a try block.
#[derive(Debug, Clone, PartialEq, Eq, Structural)]
pub struct CatchBlock {
    /// Zero when the clause catches every exception type.
    pub type_idx: u64,
    /// Program counter of the handler's first instruction.
    pub handler_pc: u64,
    /// Size of the clause in bytes.
    pub catch_type: u64,
}

/// One try block and its catch clauses.
#[derive(Debug, Clone)]
pub struct TryBlock {
    /// Offset of the guarded range from the start of the instructions.
    pub start_pc: u64,
    /// Length of the guarded range in bytes.
    pub length: u64,
    /// Number of catch clauses.
    pub num_catches: u64,
    /// The catch clauses.
    pub catch_blocks: Vec<CatchBlock>,
}

/// Clause `c` of `cbs` holds the three ULEB128 words of the catch clause
/// decoded at its place in the chain that starts at `cstart`.
pub open spec fn catch_block_ok(buf: Seq<u8>, cstart: int, cbs: Seq<CatchBlock>, c: int) -> bool {
    let cs = catches_end(buf, cstart, c as nat)->Ok_0;
    &&& catches_end(buf, cstart, c as nat) is Ok
    &&& cbs[c].type_idx == uleb_val_at(buf, cs)
    &&& cbs[c].handler_pc == uleb_val_at(buf, uleb_end_at(buf, cs))
    &&& cbs[c].catch_type == uleb_val_at(buf, uleb_end_at(buf, uleb_end_at(buf, cs)))
}

/// Block `t` of `tbs` holds the three ULEB128 words of the try block
/// decoded at its place in the chain that starts at `tstart`, and its
/// catch clauses hold theirs.
pub open spec fn try_block_ok(buf: Seq<u8>, tstart: int, tbs: Seq<TryBlock>, t: int) -> bool {
    let ts = tries_end(buf, tstart, t as nat)->Ok_0;
    &&& tries_end(buf, tstart, t as nat) is Ok
    &&& tbs[t].start_pc == uleb_val_at(buf, ts)
    &&& tbs[t].length == uleb_val_at(buf, uleb_end_at(buf, ts))
    &&& tbs[t].num_catches == uleb_val_at(buf, uleb_end_at(buf, uleb_end_at(buf, ts)))
    &&& tbs[t].catch_blocks@.len() == tbs[t].num_catches
    &&& forall|c: int|
        0 <= c < tbs[t].catch_blocks@.len() ==> #[trigger] catch_block_ok(
            buf,
            ulebs_end(buf, ts, 3)->Ok_0,
            tbs[t].catch_blocks@,
            c,
        )
}

/// A decoded code record.
#[derive(Debug)]
pub struct Code {
    /// Number of registers, arguments not counted.
    pub num_regs: u64,
    /// Number of arguments.
    pub num_args: u64,
    /// Total size of the instructions in bytes.
    pub code_size: u64,
    /// Number of try blocks.
    pub tries_size: u64,
    /// The raw instruction bytes, exactly `code_size` of them.
    pub instructions: Vec<u8>,
    /// The try blocks.
    pub try_blocks: Vec<TryBlock>,
}

impl Code {
    /// The record's counted fields agree with the bytes at `off`, and the
    /// instruction bytes are the slice that follows the four counts.
    pub open spec fn parsed_from(&self, buf: Seq<u8>, off: int) -> bool {
        &&& ulebs_end(buf, off, 4) is Ok
        &&& self.num_regs == uleb_val_at(buf, off)
        &&& self.num_args == uleb_val_at(buf, uleb_end_at(buf, off))
        &&& self.code_size == uleb_val_at(buf, uleb_end_at(buf, uleb_end_at(buf, off)))
        &&& self.tries_size == uleb_val_at(
            buf,
            uleb_end_at(buf, uleb_end_at(buf, uleb_end_at(buf, off))),
        )
        &&& self.instructions@.len() == self.code_size
        &&& self.instructions@ == buf.subrange(
            ulebs_end(buf, off, 4)->Ok_0,
            ulebs_end(buf, off, 4)->Ok_0 + self.code_size,
        )
        &&& self.try_blocks@.len() == self.tries_size
        &&& forall|t: int|
            0 <= t < self.try_blocks@.len() ==> #[trigger] try_block_ok(
                buf,
                code_tries_off(buf, off),
                self.try_blocks@,
                t,
            )
    }

    /// Reads the code record at `off`: four ULEB128 counts, `code_size`
    /// instruction bytes, then `tries_size` try blocks of three ULEB128
    /// words plus their catch clauses of three ULEB128 words each.
    /// Succeeds exactly when the whole record fits the buffer.
    pub fn read(buf: &[u8], off: usize) -> (r: Result<Code, AbcError>)
        ensures
            r is Ok <==> code_end(buf@, off as int) is Ok,
            r matches Ok(c) ==> c.parsed_from(buf@, off as int),
            r matches Err(e) ==> code_end(buf@, off as int) == Err::<int, AbcError>(e),
    {
        let len = buf.len();
        let (num_regs, n0) = match read_uleb128(buf, off) {
            Ok(p) => p,
            Err(e) => {
                return Err(e);
            },
        };
        let (num_args, n1) = match read_uleb128(buf, off + n0) {
            Ok(p) => p,
            Err(e) => {
                assert(ulebs_end(buf@, off as int, 4) == Err::<int, AbcError>(e));
                return Err(e);
            },
        };
        let (code_size, n2) = match read_uleb128(buf, off + n0 + n1) {
            Ok(p) => p,
            Err(e) => {
                assert(ulebs_end(buf@, (off + n0) as int, 3) == Err::<int, AbcError>(e));
                assert(ulebs_end(buf@, off as int, 4) == Err::<int, AbcError>(e));
                return Err(e);
            },
        };
        let (tries_size, n3) = match read_uleb128(buf, off + n0 + n1 + n2) {
            Ok(p) => p,
            Err(e) => {
                assert(ulebs_end(buf@, (off + n0 + n1) as int, 2) == Err::<int, AbcError>(e));
                assert(ulebs_end(buf@, (off + n0) as int, 3) == Err::<int, AbcError>(e));
                assert(ulebs_end(buf@, off as int, 4) == Err::<int, AbcError>(e));
                return Err(e);
            },
        };
        let body = off + n0 + n1 + n2 + n3;
        proof {
            assert(ulebs_end(buf@, body as int, 0) == Ok::<int, AbcError>(body as int));
            assert(ulebs_end(buf@, (off + n0 + n1 + n2) as int, 1) == Ok::<int, AbcError>(
                body as int,
            ));
            assert(ulebs_end(buf@, (off + n0 + n1) as int, 2) == Ok::<int, AbcError>(body as int));
            assert(ulebs_end(buf@, (off + n0) as int, 3) == Ok::<int, AbcError>(body as int));
            assert(ulebs_end(buf@, off as int, 4) == Ok::<int, AbcError>(body as int));
        }
        if code_size > (buf.len() - body) as u64 {
            return Err(AbcError::OutOfBounds);
        }
        let csize = code_size as usize;
        let instructions = vstd::slice::slice_to_vec(
            vstd::slice::slice_subrange(buf, body, body + csize),
        );
        let tstart = body + csize;
        proof {
            assert(code_end(buf@, off as int) == tries_end(
                buf@,
                tstart as int,
                tries_size as nat,
            ));
            assert(code_tries_off(buf@, off as int) == tstart as int);
        }
        let mut cur = tstart;
        let mut try_blocks: Vec<TryBlock> = Vec::new();
        let mut t: u64 = 0;
        while t < tries_size
            invariant
                0 <= t <= tries_size,
                try_blocks@.len() == t,
                len == buf@.len(),
                cur <= len,
                code_end(buf@, off as int) == tries_end(
                    buf@,
                    cur as int,
                    (tries_size - t) as nat,
                ),
                tries_end(buf@, tstart as int, t as nat) == Ok::<int, AbcError>(cur as int),
                forall|tt: int|
                    0 <= tt < t ==> #[trigger] try_block_ok(
                        buf@,
                        tstart as int,
                        try_blocks@,
                        tt,
                    ),
            decreases tries_size - t,
        {
            let ghost tleft = (tries_size - t) as nat;
            let ghost try_off = cur as int;
            let (start_pc, m0) = match read_uleb128(buf, cur) {
                Ok(p) => p,
                Err(e) => {
                    assert(ulebs_end(buf@, try_off, 3) == Err::<int, AbcError>(e));
                    return Err(e);
                },
            };
            let (length, m1) = match read_uleb128(buf, cur + m0) {
                Ok(p) => p,
                Err(e) => {
                    assert(ulebs_end(buf@, try_off + m0, 2) == Err::<int, AbcError>(e));
                    assert(ulebs_end(buf@, try_off, 3) == Err::<int, AbcError>(e));
                    return Err(e);
                },
            };
            let (num_catches, m2) = match read_uleb128(buf, cur + m0 + m1) {
                Ok(p) => p,
                Err(e) => {
                    assert(ulebs_end(buf@, try_off + m0 + m1, 1) == Err::<int, AbcError>(e));
                    assert(ulebs_end(buf@, try_off + m0, 2) == Err::<int, AbcError>(e));
                    assert(ulebs_end(buf@, try_off, 3) == Err::<int, AbcError>(e));
                    return Err(e);
                },
            };
            cur = cur + m0 + m1 + m2;
            let ghost cstart = cur as int;
            proof {
                assert(ulebs_end(buf@, cur as int, 0) == Ok::<int, AbcError>(cur as int));
                assert(ulebs_end(buf@, try_off + m0 + m1, 1) == Ok::<int, AbcError>(cur as int));
                assert(ulebs_end(buf@, try_off + m0, 2) == Ok::<int, AbcError>(cur as int));
                assert(ulebs_end(buf@, try_off, 3) == Ok::<int, AbcError>(cur as int));
                assert(tries_end(buf@, try_off, tleft) == tries_after_catches(
                    buf@,
                    catches_end(buf@, cur as int, num_catches as nat),
                    (tleft - 1) as nat,
                ));
            }
            let mut catch_blocks: Vec<CatchBlock> = Vec::new();
            let mut c: u64 = 0;
            while c < num_catches
                invariant
                    0 <= c <= num_catches,
                    catch_blocks@.len() == c,
                    len == buf@.len(),
                    cur <= len,
                    0 <= t < tries_size,
                    tleft == tries_size - t,
                    code_end(buf@, off as int) == tries_after_catches(
                        buf@,
                        catches_end(buf@, cur as int, (num_catches - c) as nat),
                        (tleft - 1) as nat,
                    ),
                    catches_end(buf@, cstart, c as nat) == Ok::<int, AbcError>(cur as int),
                    forall|cc: int|
                        0 <= cc < c ==> #[trigger] catch_block_ok(
                            buf@,
                            cstart,
                            catch_blocks@,
                            cc,
                        ),
                decreases num_catches - c,
            {
                let ghost catch_off = cur as int;
                let ghost cleft = (num_catches - c) as nat;
                let (type_idx, k0) = match read_uleb128(buf, cur) {
                    Ok(p) => p,
                    Err(e) => {
                        assert(ulebs_end(buf@, catch_off, 3) == Err::<int, AbcError>(e));
                        assert(catches_end(buf@, catch_off, cleft) == Err::<int, AbcError>(e));
                        return Err(e);
                    },
                };
                let (handler_pc, k1) = match read_uleb128(buf, cur + k0) {
                    Ok(p) => p,
                    Err(e) => {
                        assert(ulebs_end(buf@, catch_off + k0, 2) == Err::<int, AbcError>(e));
                        assert(ulebs_end(buf@, catch_off, 3) == Err::<int, AbcError>(e));
                        assert(catches_end(buf@, catch_off, cleft) == Err::<int, AbcError>(e));
                        return Err(e);
                    },
                };
                let (catch_type, k2) = match read_uleb128(buf, cur + k0 + k1) {
                    Ok(p) => p,
                    Err(e) => {
                        assert(ulebs_end(buf@, catch_off + k0 + k1, 1) == Err::<int, AbcError>(e));
                        assert(ulebs_end(buf@, catch_off + k0, 2) == Err::<int, AbcError>(e));
                        assert(ulebs_end(buf@, catch_off, 3) == Err::<int, AbcError>(e));
                        assert(catches_end(buf@, catch_off, cleft) == Err::<int, AbcError>(e));
                        return Err(e);
                    },
                };
                cur = cur + k0 + k1 + k2;
                proof {
                    assert(ulebs_end(buf@, cur as int, 0) == Ok::<int, AbcError>(cur as int));
                    assert(ulebs_end(buf@, catch_off + k0 + k1, 1) == Ok::<int, AbcError>(
                        cur as int,
                    ));
                    assert(ulebs_end(buf@, catch_off + k0, 2) == Ok::<int, AbcError>(cur as int));
                    assert(ulebs_end(buf@, catch_off, 3) == Ok::<int, AbcError>(cur as int));
                    assert(catches_end(buf@, catch_off, cleft) == catches_end(
                        buf@,
                        cur as int,
                        (cleft - 1) as nat,
                    ));
                    lemma_catches_end_split(buf@, cstart, catch_off, c as nat, (c + 1) as nat);
                    assert(catches_end(buf@, cur as int, 0) == Ok::<int, AbcError>(cur as int));
                    assert(catches_end(buf@, catch_off, 1) == Ok::<int, AbcError>(cur as int));
                    assert(catches_end(buf@, cstart, (c + 1) as nat) == Ok::<int, AbcError>(
                        cur as int,
                    ));
                }
                let ghost prev_cb = catch_blocks@;
                catch_blocks.push(CatchBlock { type_idx, handler_pc, catch_type });
                c = c + 1;
                proof {
                    assert forall|cc: int| 0 <= cc < c implies #[trigger] catch_block_ok(
                        buf@,
                        cstart,
                        catch_blocks@,
                        cc,
                    ) by {
                        if cc < prev_cb.len() {
                            assert(catch_block_ok(buf@, cstart, prev_cb, cc));
                            assert(catch_blocks@[cc] == prev_cb[cc]);
                        } else {
                            assert(catch_blocks@[cc].type_idx == uleb_val_at(buf@, catch_off));
                            assert(catches_end(buf@, cstart, cc as nat) == Ok::<int, AbcError>(
                                catch_off,
                            ));
                        }
                    }
                }
            }
            proof {
                assert(catches_end(buf@, cur as int, 0) == Ok::<int, AbcError>(cur as int));
                lemma_tries_end_split(buf@, tstart as int, try_off, t as nat, (t + 1) as nat);
                assert(tries_end(buf@, cur as int, 0) == Ok::<int, AbcError>(cur as int));
                assert(tries_end(buf@, try_off, 1) == Ok::<int, AbcError>(cur as int));
                assert(tries_end(buf@, tstart as int, (t + 1) as nat) == Ok::<int, AbcError>(
                    cur as int,
                ));
            }
            let ghost prev_tb = try_blocks@;
            let ghost gcb = catch_blocks@;
            try_blocks.push(TryBlock { start_pc, length, num_catches, catch_blocks });
            t = t + 1;
            proof {
                assert forall|tt: int| 0 <= tt < t implies #[trigger] try_block_ok(
                    buf@,
                    tstart as int,
                    try_blocks@,
                    tt,
                ) by {
                    if tt < prev_tb.len() {
                        assert(try_block_ok(buf@, tstart as int, prev_tb, tt));
                        assert(try_blocks@[tt] == prev_tb[tt]);
                    } else {
                        assert(tries_end(buf@, tstart as int, tt as nat) == Ok::<int, AbcError>(
                            try_off,
                        ));
                        assert(try_blocks@[tt].catch_blocks@ == gcb);
                        assert(ulebs_end(buf@, try_off, 3)->Ok_0 == cstart);
                    }
                }
            }
        }
        proof {
            assert(tries_end(buf@, cur as int, 0) == Ok::<int, AbcError>(cur as int));
        }
        Ok(Code { num_regs, num_args, code_size, tries_size, instructions, try_blocks })
    }
}

} // verus!
