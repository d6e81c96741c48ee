use vstd::prelude::*;

use crate::bytecode::{highest_register, Bytecode, OpCode, Operand};
use crate::lunarir::{LunarIR, LunarValue};

verus! {

/// The highest register number an instruction operand can name.
pub const MAX_REGISTER: usize = 255;

/// One compiled scope: its allocations, tables and instructions.
///
/// The scopes of a compilation live in one vector; `parent` is the index of
/// the enclosing scope there. Symbol and string-pool entries are held by
/// their index, so both tables are dense from 0 by construction.
#[derive(Debug)]
pub struct IrepBase {
    pub locals: usize,
    pub regs: usize,
    pub rep_len: usize,
    pub chandlers: usize,
    pub syms: Vec<String>,
    pub pool: Vec<String>,
    pub insn: Vec<Bytecode>,
    pub parent: Option<usize>,
}

impl IrepBase {
    pub fn new() -> (r: Self)
        ensures
            r.locals == 0,
            r.regs == 0,
            r.rep_len == 0,
            r.chandlers == 0,
            r.syms@.len() == 0,
            r.pool@.len() == 0,
            r.insn@.len() == 0,
            r.parent is None,
    {
        IrepBase {
            locals: 0,
            regs: 0,
            rep_len: 0,
            chandlers: 0,
            syms: Vec::new(),
            pool: Vec::new(),
            insn: Vec::new(),
            parent: None,
        }
    }
}

/// The lowering context the transformer is in.
#[derive(Debug, Clone, Copy, PartialEq, Eq, Structural)]
pub enum TransformState {
    Top,
    InFor { reg: usize, sym: usize },
    InFuncall { sym: usize, reg: usize, argsize: usize },
}

/// Why an intermediate sequence could not be lowered.
#[derive(Debug, Clone, Copy, PartialEq, Eq, Structural)]
pub enum TransformError {
    /// An instruction arrived in a context that does not expect it.
    StateMismatch,
    /// A symbol or pool entry was registered past the next free index.
    IndexOutOfOrder,
    /// A loop progression with a step of zero.
    ZeroStep,
    /// A scope needs a register above `MAX_REGISTER`.
    RegisterOverflow,
    /// An instruction kind that has no lowering yet.
    Unimplemented,
}

/// Every register an instruction of `ir` names, a send's argument
/// registers included, is at most its register count.
pub open spec fn registers_within(ir: IrepBase) -> bool {
    forall|i: int|
        0 <= i < ir.insn@.len() ==> match #[trigger] highest_register(ir.insn@[i]) {
            Some(r) => r as int <= ir.regs as int,
            None => true,
        }
}

/// The per-scope invariant: register counts fit an operand, every named
/// register has been counted, and no exception handlers are recorded.
pub open spec fn irep_well_formed(ir: IrepBase) -> bool {
    &&& ir.regs <= MAX_REGISTER
    &&& ir.locals <= ir.regs
    &&& ir.chandlers == 0
    &&& registers_within(ir)
}

/// The scopes form one tree rooted at index 0: every other scope has a
/// parent that comes before it.
pub open spec fn tree_well_formed(reps: Seq<IrepBase>) -> bool {
    &&& reps.len() > 0
    &&& reps[0].parent is None
    &&& forall|k: int|
        1 <= k < reps.len() ==> (#[trigger] reps[k].parent is Some && (reps[k].parent->0 as int)
            < k)
}

/// What holds of the scope vector between any two instructions.
pub open spec fn transform_inv(reps: Seq<IrepBase>, cur: int) -> bool {
    &&& tree_well_formed(reps)
    &&& 0 <= cur < reps.len()
    &&& forall|k: int| 0 <= k < reps.len() ==> irep_well_formed(#[trigger] reps[k])
    &&& forall|k: int| 0 <= k < reps.len() ==> (#[trigger] reps[k].rep_len as int) < reps.len()
}


/// Appends an instruction to the scope at `cur`; the instruction names no
/// register beyond the scope's count.
fn emit(reps: &mut Vec<IrepBase>, cur: usize, b: Bytecode)
    requires
        transform_inv(old(reps)@, cur as int),
        match highest_register(b) {
            Some(r) => r as int <= old(reps)@[cur as int].regs as int,
            None => true,
        },
    ensures
        transform_inv(final(reps)@, cur as int),
        final(reps)@.len() == old(reps)@.len(),
        forall|k: int| 0 <= k < old(reps)@.len() && k != cur ==> final(reps)@[k] == old(reps)@[k],
        final(reps)@[cur as int].insn@ == old(reps)@[cur as int].insn@ + seq![b],
        final(reps)@[cur as int].chandlers == old(reps)@[cur as int].chandlers,
        final(reps)@[cur as int].regs == old(reps)@[cur as int].regs,
        final(reps)@[cur as int].locals == old(reps)@[cur as int].locals,
        final(reps)@[cur as int].rep_len == old(reps)@[cur as int].rep_len,
        final(reps)@[cur as int].syms == old(reps)@[cur as int].syms,
        final(reps)@[cur as int].pool == old(reps)@[cur as int].pool,
        final(reps)@[cur as int].parent == old(reps)@[cur as int].parent,
{
    let mut ir = reps.remove(cur);
    ir.insn.push(b);
    reps.insert(cur, ir);
    proof {
        let ir = reps@[cur as int];
        assert forall|i: int| 0 <= i < ir.insn@.len() implies match #[trigger] highest_register(
            ir.insn@[i],
        ) {
            Some(r) => r as int <= ir.regs as int,
            None => true,
        } by {
            if i < ir.insn@.len() - 1 {
                assert(ir.insn@[i] == old(reps)@[cur as int].insn@[i]);
            }
        }
        assert forall|k: int| 0 <= k < reps@.len() && k != cur implies reps@[k] == old(reps)@[k] by {
        }
        assert(ir.insn@ =~= old(reps)@[cur as int].insn@ + seq![b]);
    }
}


/// Raises the register count of the scope at `cur` to `n` and its local
/// count to `l`; neither count goes down, and `l <= n <= MAX_REGISTER`.
fn set_counts(reps: &mut Vec<IrepBase>, cur: usize, n: usize, l: usize)
    requires
        transform_inv(old(reps)@, cur as int),
        old(reps)@[cur as int].regs <= n <= MAX_REGISTER,
        old(reps)@[cur as int].locals <= l <= n,
    ensures
        transform_inv(final(reps)@, cur as int),
        final(reps)@ == old(reps)@.update(
            cur as int,
            IrepBase { regs: n, locals: l, ..old(reps)@[cur as int] },
        ),
{
    let mut ir = reps.remove(cur);
    ir.regs = n;
    ir.locals = l;
    reps.insert(cur, ir);
    proof {
        assert(reps@ =~= old(reps)@.update(
            cur as int,
            IrepBase { regs: n, locals: l, ..old(reps)@[cur as int] },
        ));
        let ir = reps@[cur as int];
        assert forall|i: int| 0 <= i < ir.insn@.len() implies match #[trigger] highest_register(
            ir.insn@[i],
        ) {
            Some(r) => r as int <= ir.regs as int,
            None => true,
        } by {
            assert(ir.insn@[i] == old(reps)@[cur as int].insn@[i]);
        }
    }
}

/// Allocates the next register of the scope at `cur`.
fn alloc_reg(reps: &mut Vec<IrepBase>, cur: usize) -> (r: Result<u8, TransformError>)
    requires
        transform_inv(old(reps)@, cur as int),
    ensures
        transform_inv(final(reps)@, cur as int),
        match r {
            Ok(x) => {
                &&& x as int == old(reps)@[cur as int].regs + 1
                &&& final(reps)@ == old(reps)@.update(
                    cur as int,
                    IrepBase { regs: x as usize, ..old(reps)@[cur as int] },
                )
            },
            Err(e) => {
                &&& e == TransformError::RegisterOverflow
                &&& old(reps)@[cur as int].regs == MAX_REGISTER
                &&& final(reps)@ == old(reps)@
            },
        },
{
    let regs = reps[cur].regs;
    if regs >= MAX_REGISTER {
        return Err(TransformError::RegisterOverflow);
    }
    let locals = reps[cur].locals;
    set_counts(reps, cur, regs + 1, locals);
    Ok((regs + 1) as u8)
}


/// Sets entry `idx` of a dense table: overwrites an existing entry, or
/// appends when `idx` is the next free index. Any larger index is refused.
fn put_entry(table: &mut Vec<String>, idx: usize, text: String) -> (ok: bool)
    ensures
        ok == (idx <= old(table)@.len()),
        ok && idx < old(table)@.len() ==> final(table)@ == old(table)@.update(idx as int, text),
        ok && idx == old(table)@.len() ==> final(table)@ == old(table)@.push(text),
        !ok ==> final(table)@ == old(table)@,
{
    if idx < table.len() {
        table.set(idx, text);
        true
    } else if idx == table.len() {
        table.push(text);
        true
    } else {
        false
    }
}

/// Records a symbol name (`to_pool` false) or a pool string (`to_pool` true)
/// at `idx` in the scope at `cur`.
fn store_entry(reps: &mut Vec<IrepBase>, cur: usize, to_pool: bool, idx: usize, text: String) -> (r:
    Result<(), TransformError>)
    requires
        transform_inv(old(reps)@, cur as int),
    ensures
        transform_inv(final(reps)@, cur as int),
        final(reps)@.len() == old(reps)@.len(),
        forall|k: int| 0 <= k < old(reps)@.len() && k != cur ==> final(reps)@[k] == old(reps)@[k],
        ({
            let o = old(reps)@[cur as int];
            let n = final(reps)@[cur as int];
            let ot = if to_pool { o.pool@ } else { o.syms@ };
            let nt = if to_pool { n.pool@ } else { n.syms@ };
            &&& (if to_pool { n.syms == o.syms } else { n.pool == o.pool })
            &&& n.insn == o.insn && n.regs == o.regs && n.locals == o.locals
            &&& n.rep_len == o.rep_len && n.parent == o.parent && n.chandlers == o.chandlers
            &&& r is Ok <==> idx <= ot.len()
            &&& r is Ok && idx < ot.len() ==> nt == ot.update(idx as int, text)
            &&& r is Ok && idx == ot.len() ==> nt == ot.push(text)
            &&& r is Err ==> r == Err::<(), TransformError>(TransformError::IndexOutOfOrder) && nt == ot
        }),
{
    let mut ir = reps.remove(cur);
    let ok = if to_pool {
        put_entry(&mut ir.pool, idx, text)
    } else {
        put_entry(&mut ir.syms, idx, text)
    };
    reps.insert(cur, ir);
    proof {
        let ir = reps@[cur as int];
        assert forall|i: int| 0 <= i < ir.insn@.len() implies match #[trigger] highest_register(
            ir.insn@[i],
        ) {
            Some(r) => r as int <= ir.regs as int,
            None => true,
        } by {
            assert(ir.insn@[i] == old(reps)@[cur as int].insn@[i]);
        }
        assert forall|k: int| 0 <= k < reps@.len() && k != cur implies reps@[k] == old(reps)@[k] by {}
    }
    if ok {
        Ok(())
    } else {
        Err(TransformError::IndexOutOfOrder)
    }
}

/// Opens a child scope of the scope at `cur` and returns its index.
fn add_child(reps: &mut Vec<IrepBase>, cur: usize) -> (child: usize)
    requires
        transform_inv(old(reps)@, cur as int),
    ensures
        child == old(reps)@.len(),
        transform_inv(final(reps)@, child as int),
        final(reps)@.len() == old(reps)@.len() + 1,
        forall|k: int| 0 <= k < old(reps)@.len() && k != cur ==> final(reps)@[k] == old(reps)@[k],
        final(reps)@[cur as int] == (IrepBase {
            rep_len: (old(reps)@[cur as int].rep_len + 1) as usize,
            ..old(reps)@[cur as int]
        }),
        final(reps)@[child as int].parent == Some(cur),
        final(reps)@[child as int].regs == 0,
        final(reps)@[child as int].locals == 0,
        final(reps)@[child as int].rep_len == 0,
        final(reps)@[child as int].insn@.len() == 0,
        final(reps)@[child as int].syms@.len() == 0,
        final(reps)@[child as int].pool@.len() == 0,
{
    let child = reps.len();
    let mut ir = reps.remove(cur);
    ir.rep_len = ir.rep_len + 1;
    reps.insert(cur, ir);
    let mut rep = IrepBase::new();
    rep.parent = Some(cur);
    reps.push(rep);
    proof {
        let ir = reps@[cur as int];
        assert forall|i: int| 0 <= i < ir.insn@.len() implies match #[trigger] highest_register(
            ir.insn@[i],
        ) {
            Some(r) => r as int <= ir.regs as int,
            None => true,
        } by {
            assert(ir.insn@[i] == old(reps)@[cur as int].insn@[i]);
        }
        assert forall|k: int| 0 <= k < old(reps)@.len() && k != cur implies reps@[k] == old(reps)@[k] by {}
        assert(irep_well_formed(reps@[child as int]));
        assert forall|k: int| 0 <= k < reps@.len() implies irep_well_formed(#[trigger] reps@[k]) by {
            if k < old(reps)@.len() && k != cur {
                assert(reps@[k] == old(reps)@[k]);
            }
        }
        assert forall|k: int| 1 <= k < reps@.len() implies (#[trigger] reps@[k].parent is Some && (
        reps@[k].parent->0 as int) < k) by {
            if k < old(reps)@.len() && k != cur {
                assert(reps@[k] == old(reps)@[k]);
            }
        }
        assert forall|k: int| 0 <= k < reps@.len() implies (#[trigger] reps@[k].rep_len as int) < reps@.len() by {
            if k < old(reps)@.len() && k != cur {
                assert(reps@[k] == old(reps)@[k]);
            }
        }
    }
    child
}


/// How many values the progression from `start` up to `end` by `step` holds.
pub open spec fn progression_count(start: int, end: int, step: int) -> int
    decreases end - start,
{
    if step <= 0 || start > end {
        0
    } else if start + step > end {
        1
    } else {
        1 + progression_count(start + step, end, step)
    }
}

proof fn lemma_progression_count_positive(start: int, end: int, step: int)
    requires
        step > 0,
    ensures
        progression_count(start, end, step) >= 0,
        start <= end ==> progression_count(start, end, step) >= 1,
    decreases end - start,
{
    if start <= end && start + step <= end {
        lemma_progression_count_positive(start + step, end, step);
    }
}

/// How many registers the loads of a progression take: one per value, and
/// one for the array of an empty progression.
pub open spec fn progression_regs(start: int, end: int, step: int) -> int {
    let n = progression_count(start, end, step);
    if n == 0 { 1 } else { n }
}

/// The loads of a progression's values into consecutive registers from `first`.
pub open spec fn progression_loads(first: int, start: int, step: int, n: int) -> Seq<Bytecode> {
    Seq::new(
        n as nat,
        |i: int|
            Bytecode { op: OpCode::LOADI, operand: Operand::BB((first + i) as u8, ((start + i * step) % 256) as u8) },
    )
}

/// Loads each value of the progression from `start` up to `end` by `step`
/// into a fresh register, then collects them into an array held by the
/// first of those registers. An empty progression gets one fresh register
/// for its empty array. Values are loaded as their low 8 bits.
fn load_progression(reps: &mut Vec<IrepBase>, cur: usize, start: usize, end: usize, step: usize) -> (r:
    Result<u8, TransformError>)
    requires
        transform_inv(old(reps)@, cur as int),
        step > 0,
    ensures
        transform_inv(final(reps)@, cur as int),
        final(reps)@.len() == old(reps)@.len(),
        forall|k: int| 0 <= k < old(reps)@.len() && k != cur ==> final(reps)@[k] == old(reps)@[k],
        r is Err ==> r == Err::<u8, TransformError>(TransformError::RegisterOverflow)
            && old(reps)@[cur as int].regs + progression_regs(start as int, end as int, step as int) > MAX_REGISTER,
        r is Ok ==> ({
            let o = old(reps)@[cur as int];
            let f = final(reps)@[cur as int];
            let first = r->Ok_0;
            let n = progression_count(start as int, end as int, step as int);
            &&& first == o.regs + 1
            &&& o.regs + progression_regs(start as int, end as int, step as int) <= MAX_REGISTER
            &&& f == (IrepBase { regs: (o.regs + progression_regs(start as int, end as int, step as int)) as usize, insn: f.insn, ..o })
            &&& f.insn@ == o.insn@ + progression_loads(first as int, start as int, step as int, n)
                + seq![Bytecode { op: OpCode::ARRAY, operand: Operand::BB(first, n as u8) }]
        }),
{
    let ghost o = reps@[cur as int];
    let ghost n = progression_count(start as int, end as int, step as int);
    let regs0 = reps[cur].regs;
    let first_reg: u8 = if regs0 < MAX_REGISTER { (regs0 + 1) as u8 } else { 0 };
    let mut pushed: usize = 0;
    if start <= end {
        let mut v: usize = start;
        loop
            invariant_except_break
                v == start + pushed * step,
                pushed + progression_count(v as int, end as int, step as int) == n,
            invariant
                transform_inv(reps@, cur as int),
                reps@.len() == old(reps)@.len(),
                forall|k: int| 0 <= k < old(reps)@.len() && k != cur ==> reps@[k] == old(reps)@[k],
                o == old(reps)@[cur as int],
                n == progression_count(start as int, end as int, step as int),
                first_reg as int == o.regs + 1 || o.regs == MAX_REGISTER,
                start <= v <= end,
                step > 0,
                reps@[cur as int].regs == o.regs + pushed,
                pushed > 0 ==> first_reg as int == o.regs + 1,
                reps@[cur as int] == (IrepBase { regs: (o.regs + pushed) as usize, insn: reps@[cur as int].insn, ..o }),
                reps@[cur as int].insn@ == o.insn@ + progression_loads(o.regs + 1, start as int, step as int, pushed as int),
            ensures
                pushed == n,
                reps@[cur as int].regs == o.regs + pushed,
                pushed > 0 ==> first_reg as int == o.regs + 1,
                reps@[cur as int] == (IrepBase { regs: (o.regs + pushed) as usize, insn: reps@[cur as int].insn, ..o }),
                reps@[cur as int].insn@ == o.insn@ + progression_loads(o.regs + 1, start as int, step as int, pushed as int),
                transform_inv(reps@, cur as int),
                reps@.len() == old(reps)@.len(),
                forall|k: int| 0 <= k < old(reps)@.len() && k != cur ==> reps@[k] == old(reps)@[k],
            decreases end - v,
        {
            proof {
                lemma_progression_count_positive(v as int, end as int, step as int);
            }
            let reg = match alloc_reg(reps, cur) {
                Ok(reg) => reg,
                Err(e) => {
                    return Err(e);
                },
            };
            let b = Bytecode { op: OpCode::LOADI, operand: Operand::BB(reg, (v % 256) as u8) };
            emit(reps, cur, b);
            proof {
                assert(start + (pushed + 1) * step == start + pushed * step + step) by (nonlinear_arith);
                let loads = progression_loads(o.regs + 1, start as int, step as int, pushed + 1);
                assert(loads[pushed as int] == b);
                assert(loads.subrange(0, pushed as int) =~= progression_loads(o.regs + 1, start as int, step as int, pushed as int));
                assert(reps@[cur as int].insn@ =~= o.insn@ + progression_loads(o.regs + 1, start as int, step as int, pushed + 1));
            }
            pushed = pushed + 1;
            if end - v < step {
                break;
            }
            v = v + step;
        }
    }
    let first = if pushed == 0 {
        match alloc_reg(reps, cur) {
            Ok(reg) => reg,
            Err(e) => {
                return Err(e);
            },
        }
    } else {
        first_reg
    };
    emit(reps, cur, Bytecode { op: OpCode::ARRAY, operand: Operand::BB(first, pushed as u8) });
    proof {
        assert(reps@[cur as int].insn@ =~= o.insn@ + progression_loads(first as int, start as int, step as int, n)
            + seq![Bytecode { op: OpCode::ARRAY, operand: Operand::BB(first, n as u8) }]);
    }
    Ok(first)
}


/// The instruction that loads a call argument into register `reg`.
pub open spec fn load_arg(reg: u8, value: LunarValue) -> Bytecode {
    match value {
        LunarValue::Nil => Bytecode { op: OpCode::LOADNIL, operand: Operand::B(reg) },
        LunarValue::Boolean(true) => Bytecode { op: OpCode::LOADT, operand: Operand::B(reg) },
        LunarValue::Boolean(false) => Bytecode { op: OpCode::LOADF, operand: Operand::B(reg) },
        LunarValue::Number(n) => Bytecode { op: OpCode::LOADI, operand: Operand::BB(reg, (n % 256) as u8) },
        LunarValue::String(idx) => Bytecode {
            op: OpCode::STRING,
            operand: Operand::BB(reg, (idx % 256) as u8),
        },
    }
}

fn arg_load(reg: u8, value: LunarValue) -> (b: Bytecode)
    ensures
        b == load_arg(reg, value),
{
    match value {
        LunarValue::Nil => Bytecode { op: OpCode::LOADNIL, operand: Operand::B(reg) },
        LunarValue::Boolean(t) => {
            if t {
                Bytecode { op: OpCode::LOADT, operand: Operand::B(reg) }
            } else {
                Bytecode { op: OpCode::LOADF, operand: Operand::B(reg) }
            }
        },
        LunarValue::Number(n) => Bytecode { op: OpCode::LOADI, operand: Operand::BB(reg, (n % 256) as u8) },
        LunarValue::String(idx) => Bytecode {
            op: OpCode::STRING,
            operand: Operand::BB(reg, (idx % 256) as u8),
        },
    }
}

/// `b` is `a` with `added` appended to its instructions and its register
/// and local counts set to `regs` and `locals`; nothing else differs.
pub open spec fn grown(a: IrepBase, b: IrepBase, added: Seq<Bytecode>, regs: int, locals: int) -> bool {
    &&& b.insn@ == a.insn@ + added
    &&& b.regs == regs
    &&& b.locals == locals
    &&& b.rep_len == a.rep_len
    &&& b.chandlers == a.chandlers
    &&& b.syms == a.syms
    &&& b.pool == a.pool
    &&& b.parent == a.parent
}

/// Only the current scope of `o` changed on the way to `n`, as `grown` says,
/// and the current scope stays current.
pub open spec fn emits(o: Lowering, n: Lowering, added: Seq<Bytecode>, regs: int, locals: int) -> bool {
    let c = o.current as int;
    &&& n.current == o.current
    &&& n.reps@.len() == o.reps@.len()
    &&& forall|k: int| 0 <= k < o.reps@.len() && k != c ==> n.reps@[k] == o.reps@[k]
    &&& grown(o.reps@[c], n.reps@[c], added, regs, locals)
}

/// Only a table of the current scope changed: entry `idx` of the symbols
/// (`to_pool` false) or of the pool (`to_pool` true) was set to `text`.
pub open spec fn stores(o: Lowering, n: Lowering, to_pool: bool, idx: usize, text: String) -> bool {
    let c = o.current as int;
    let a = o.reps@[c];
    let b = n.reps@[c];
    let at = if to_pool { a.pool@ } else { a.syms@ };
    let bt = if to_pool { b.pool@ } else { b.syms@ };
    &&& n.current == o.current
    &&& n.reps@.len() == o.reps@.len()
    &&& forall|k: int| 0 <= k < o.reps@.len() && k != c ==> n.reps@[k] == o.reps@[k]
    &&& b.insn == a.insn && b.regs == a.regs && b.locals == a.locals && b.rep_len == a.rep_len
    &&& b.chandlers == a.chandlers && b.parent == a.parent
    &&& if to_pool { b.syms == a.syms } else { b.pool == a.pool }
    &&& bt == if idx < at.len() { at.update(idx as int, text) } else { at.push(text) }
}

/// The outcome of feeding `msg` to the machine in state `o`.
pub open spec fn step_result(o: Lowering, msg: LunarIR) -> Result<(), TransformError> {
    let ir = o.reps@[o.current as int];
    let empty = o.old_states@.len() == 0;
    match msg {
        LunarIR::ChunkEnd => if empty { Err(TransformError::StateMismatch) } else { Ok(()) },
        LunarIR::Local(_) => Err(TransformError::Unimplemented),
        LunarIR::ForParam(start, end, step) => match o.state {
            TransformState::InFor { .. } => if step == 0 {
                Err(TransformError::ZeroStep)
            } else if ir.regs + progression_regs(start as int, end as int, step as int) > MAX_REGISTER {
                Err(TransformError::RegisterOverflow)
            } else {
                Ok(())
            },
            _ => Err(TransformError::StateMismatch),
        },
        LunarIR::ForEnd => match o.state {
            TransformState::InFor { reg, .. } => if reg > ir.regs || empty {
                Err(TransformError::StateMismatch)
            } else {
                Ok(())
            },
            _ => Err(TransformError::StateMismatch),
        },
        LunarIR::Enter(_) => if ir.regs + 2 > MAX_REGISTER {
            Err(TransformError::RegisterOverflow)
        } else {
            Ok(())
        },
        LunarIR::StoreSym(idx, _) => if idx > ir.syms@.len() {
            Err(TransformError::IndexOutOfOrder)
        } else {
            Ok(())
        },
        LunarIR::PoolString(idx, _) => if idx > ir.pool@.len() {
            Err(TransformError::IndexOutOfOrder)
        } else {
            Ok(())
        },
        LunarIR::FunctionCallStart(_) | LunarIR::NoReturn => if ir.regs == MAX_REGISTER {
            Err(TransformError::RegisterOverflow)
        } else {
            Ok(())
        },
        LunarIR::FunctionCallArg(_, _) => match o.state {
            TransformState::InFuncall { argsize, .. } => if argsize >= MAX_REGISTER || ir.regs
                == MAX_REGISTER {
                Err(TransformError::RegisterOverflow)
            } else {
                Ok(())
            },
            _ => Err(TransformError::StateMismatch),
        },
        LunarIR::FunctionCallEnd => match o.state {
            TransformState::InFuncall { reg, argsize, .. } => if reg > ir.regs || argsize
                > MAX_REGISTER || reg + argsize > ir.regs || empty {
                Err(TransformError::StateMismatch)
            } else {
                Ok(())
            },
            _ => Err(TransformError::StateMismatch),
        },
        LunarIR::Block(_) => match o.state {
            TransformState::InFor { reg, .. } => if reg >= MAX_REGISTER {
                Err(TransformError::RegisterOverflow)
            } else {
                Ok(())
            },
            _ => if ir.regs == MAX_REGISTER {
                Err(TransformError::RegisterOverflow)
            } else {
                Ok(())
            },
        },
        _ => Ok(()),
    }
}

/// What a successful step on `msg` makes of machine `o`: the machine `n`.
pub open spec fn step_effect(o: Lowering, msg: LunarIR, n: Lowering) -> bool {
    let c = o.current as int;
    let ir = o.reps@[c];
    let same_states = n.state == o.state && n.old_states == o.old_states;
    let popped = n.state == o.old_states@.last() && n.old_states@ == o.old_states@.drop_last();
    let pushed = n.old_states@ == o.old_states@.push(o.state);
    match msg {
        LunarIR::ChunkStart(i) => {
            &&& n.state == TransformState::Top
            &&& pushed
            &&& if i == 0 {
                n.reps@ == o.reps@ && n.current == o.current
            } else {
                let child = o.reps@.len() as int;
                &&& n.reps@.len() == child + 1
                &&& n.current == child
                &&& forall|k: int| 0 <= k < child && k != c ==> n.reps@[k] == o.reps@[k]
                &&& n.reps@[c] == (IrepBase { rep_len: (ir.rep_len + 1) as usize, ..ir })
                &&& n.reps@[child].parent == Some(o.current)
                &&& n.reps@[child].regs == 0 && n.reps@[child].locals == 0
                &&& n.reps@[child].rep_len == 0 && n.reps@[child].chandlers == 0
                &&& n.reps@[child].insn@.len() == 0
                &&& n.reps@[child].syms@.len() == 0 && n.reps@[child].pool@.len() == 0
            }
        },
        LunarIR::ChunkEnd => {
            &&& n.reps@ == o.reps@
            &&& n.current == (match ir.parent {
                Some(p) => p,
                None => o.current,
            })
            &&& popped
        },
        LunarIR::ForStart(sym) => {
            &&& n.reps@ == o.reps@ && n.current == o.current
            &&& pushed
            &&& n.state == TransformState::InFor { reg: 0, sym }
        },
        LunarIR::ForParam(start, end, step) => {
            let first = ir.regs + 1;
            let count = progression_count(start as int, end as int, step as int);
            &&& emits(
                o,
                n,
                progression_loads(first, start as int, step as int, count) + seq![
                    Bytecode { op: OpCode::ARRAY, operand: Operand::BB(first as u8, count as u8) },
                ],
                ir.regs + progression_regs(start as int, end as int, step as int),
                ir.locals as int,
            )
            &&& n.old_states == o.old_states
            &&& n.state == TransformState::InFor { reg: first as usize, sym: o.state->InFor_sym }
        },
        LunarIR::ForEnd => {
            let reg = o.state->InFor_reg;
            let sym = o.state->InFor_sym;
            &&& emits(
                o,
                n,
                seq![Bytecode { op: OpCode::SENDB, operand: Operand::BBB(reg as u8, (sym % 256) as u8, 0) }],
                ir.regs as int,
                ir.locals as int,
            )
            &&& popped
        },
        LunarIR::Enter(eval) => {
            &&& emits(
                o,
                n,
                seq![Bytecode { op: OpCode::ENTER, operand: Operand::W(eval) }],
                ir.regs + 2,
                ir.locals + 1,
            )
            &&& same_states
        },
        LunarIR::StoreSym(idx, name) => stores(o, n, false, idx, name) && same_states,
        LunarIR::PoolString(idx, text) => stores(o, n, true, idx, text) && same_states,
        LunarIR::FunctionCallStart(sym) => {
            &&& emits(o, n, seq![], ir.regs + 1, ir.locals as int)
            &&& pushed
            &&& n.state == TransformState::InFuncall { sym, reg: (ir.regs + 1) as usize, argsize: 0 }
        },
        LunarIR::FunctionCallArg(_, value) => {
            &&& emits(o, n, seq![load_arg((ir.regs + 1) as u8, value)], ir.regs + 1, ir.locals as int)
            &&& n.old_states == o.old_states
            &&& n.state == TransformState::InFuncall {
                sym: o.state->InFuncall_sym,
                reg: o.state->InFuncall_reg,
                argsize: (o.state->InFuncall_argsize + 1) as usize,
            }
        },
        LunarIR::FunctionCallEnd => {
            let reg = o.state->InFuncall_reg;
            let sym = o.state->InFuncall_sym;
            let argsize = o.state->InFuncall_argsize;
            &&& emits(
                o,
                n,
                seq![Bytecode { op: OpCode::SSEND, operand: Operand::BBB(reg as u8, (sym % 256) as u8, argsize as u8) }],
                ir.regs as int,
                ir.locals as int,
            )
            &&& popped
        },
        LunarIR::Block(b) => {
            &&& same_states
            &&& match o.state {
                TransformState::InFor { reg, .. } => {
                    let target = reg + 1;
                    emits(
                        o,
                        n,
                        seq![Bytecode { op: OpCode::BLOCK, operand: Operand::BB(target as u8, (b % 256) as u8) }],
                        if target > ir.regs { target as int } else { ir.regs as int },
                        ir.locals as int,
                    )
                },
                _ => emits(
                    o,
                    n,
                    seq![Bytecode { op: OpCode::BLOCK, operand: Operand::BB((ir.regs + 1) as u8, (b % 256) as u8) }],
                    ir.regs + 1,
                    ir.locals as int,
                ),
            }
        },
        LunarIR::NoReturn => {
            let reg = (ir.regs + 1) as u8;
            &&& emits(
                o,
                n,
                seq![
                    Bytecode { op: OpCode::LOADNIL, operand: Operand::B(reg) },
                    Bytecode { op: OpCode::RETURN, operand: Operand::B(reg) },
                ],
                ir.regs + 1,
                ir.locals as int,
            )
            &&& same_states
        },
        LunarIR::Stop => {
            &&& emits(o, n, seq![Bytecode { op: OpCode::STOP, operand: Operand::Z }], ir.regs as int, ir.locals as int)
            &&& same_states
        },
        LunarIR::Local(_) => false,
    }
}

/// The machine before any instruction: one empty root scope, at the top.
pub open spec fn lowering_initial(m: Lowering) -> bool {
    &&& m.reps@.len() == 1
    &&& m.current == 0
    &&& m.state == TransformState::Top
    &&& m.old_states@.len() == 0
    &&& m.reps@[0].parent is None
    &&& m.reps@[0].regs == 0 && m.reps@[0].locals == 0 && m.reps@[0].rep_len == 0
    &&& m.reps@[0].chandlers == 0
    &&& m.reps@[0].insn@.len() == 0 && m.reps@[0].syms@.len() == 0 && m.reps@[0].pool@.len() == 0
}

/// `ms` is the run of the machine over `ir`: it starts initial, each
/// instruction succeeds and leads to the next state, and every state keeps
/// the machine's invariant.
pub open spec fn lowering_runs(ir: Seq<LunarIR>, ms: Seq<Lowering>) -> bool {
    &&& ms.len() == ir.len() + 1
    &&& lowering_initial(ms[0])
    &&& forall|i: int| 0 <= i < ms.len() ==> (#[trigger] ms[i]).inv()
    &&& forall|i: int|
        0 <= i < ir.len() ==> step_result(ms[i], ir[i]) is Ok && step_effect(
            ms[i],
            #[trigger] ir[i],
            ms[i + 1],
        )
}

/// The lowering machine between two instructions: the scopes, the index of
/// the current one, the current context and the saved contexts.
pub struct Lowering {
    pub reps: Vec<IrepBase>,
    pub current: usize,
    pub state: TransformState,
    pub old_states: Vec<TransformState>,
}

impl Lowering {
    pub open spec fn inv(&self) -> bool {
        transform_inv(self.reps@, self.current as int)
    }

    pub fn new() -> (r: Self)
        ensures
            r.inv(),
            lowering_initial(r),
    {
        let mut reps = Vec::new();
        reps.push(IrepBase::new());
        Lowering { reps, current: 0, state: TransformState::Top, old_states: Vec::new() }
    }

    fn on_chunk_start(&mut self, i: usize) -> (r: Result<(), TransformError>)
        requires
            old(self).inv(),
        ensures
            final(self).inv(),
            r == step_result(*old(self), LunarIR::ChunkStart(i)),
            r is Ok ==> step_effect(*old(self), LunarIR::ChunkStart(i), *final(self)),
    {
        let cur = self.current;
        if i != 0 {
            let child = add_child(&mut self.reps, cur);
            self.current = child;
        }
        self.old_states.push(self.state);
        self.state = TransformState::Top;
        Ok(())
    }

    fn on_chunk_end(&mut self) -> (r: Result<(), TransformError>)
        requires
            old(self).inv(),
        ensures
            final(self).inv(),
            r == step_result(*old(self), LunarIR::ChunkEnd),
            r is Ok ==> step_effect(*old(self), LunarIR::ChunkEnd, *final(self)),
    {
        let cur = self.current;
        if self.old_states.len() == 0 {
            return Err(TransformError::StateMismatch);
        }
        if let Some(p) = self.reps[cur].parent {
            self.current = p;
        }
        match self.old_states.pop() {
            Some(s) => {
                self.state = s;
                Ok(())
            },
            None => Err(TransformError::StateMismatch),
        }
    }

    fn on_for_start(&mut self, sym: usize) -> (r: Result<(), TransformError>)
        requires
            old(self).inv(),
        ensures
            final(self).inv(),
            r == step_result(*old(self), LunarIR::ForStart(sym)),
            r is Ok ==> step_effect(*old(self), LunarIR::ForStart(sym), *final(self)),
    {
        self.old_states.push(self.state);
        self.state = TransformState::InFor { reg: 0, sym };
        Ok(())
    }

    fn on_for_param(&mut self, start: usize, end: usize, step: usize) -> (r: Result<(), TransformError>)
        requires
            old(self).inv(),
        ensures
            final(self).inv(),
            r == step_result(*old(self), LunarIR::ForParam(start, end, step)),
            r is Ok ==> step_effect(*old(self), LunarIR::ForParam(start, end, step), *final(self)),
    {
        let cur = self.current;
        if let TransformState::InFor { reg: _, sym } = self.state {
            if step == 0 {
                return Err(TransformError::ZeroStep);
            }
            let ghost o = self.reps@[cur as int];
            let first = load_progression(&mut self.reps, cur, start, end, step)?;
            self.state = TransformState::InFor { reg: first as usize, sym };
            proof {
                lemma_progression_count_positive(start as int, end as int, step as int);
                let count = progression_count(start as int, end as int, step as int);
                let f = self.reps@[cur as int];
                assert((o.regs + 1) as u8 == first);
                let added = progression_loads(o.regs + 1, start as int, step as int, count) + seq![
                    Bytecode { op: OpCode::ARRAY, operand: Operand::BB((o.regs + 1) as u8, count as u8) },
                ];
                let nregs = o.regs + progression_regs(start as int, end as int, step as int);
                assert(f.insn@ == o.insn@ + added);
                assert(f.regs == nregs);
                assert(grown(o, f, added, nregs, o.locals as int));
            }
            Ok(())
        } else {
            Err(TransformError::StateMismatch)
        }
    }

    fn on_for_end(&mut self) -> (r: Result<(), TransformError>)
        requires
            old(self).inv(),
        ensures
            final(self).inv(),
            r == step_result(*old(self), LunarIR::ForEnd),
            r is Ok ==> step_effect(*old(self), LunarIR::ForEnd, *final(self)),
    {
        let cur = self.current;
        if let TransformState::InFor { reg, sym } = self.state {
            if reg > self.reps[cur].regs || self.old_states.len() == 0 {
                return Err(TransformError::StateMismatch);
            }
            let b = Bytecode { op: OpCode::SENDB, operand: Operand::BBB(reg as u8, (sym % 256) as u8, 0) };
            emit(&mut self.reps, cur, b);
            match self.old_states.pop() {
                Some(s) => {
                    self.state = s;
                    Ok(())
                },
                None => Err(TransformError::StateMismatch),
            }
        } else {
            Err(TransformError::StateMismatch)
        }
    }

    fn on_enter(&mut self, eval: u32) -> (r: Result<(), TransformError>)
        requires
            old(self).inv(),
        ensures
            final(self).inv(),
            r == step_result(*old(self), LunarIR::Enter(eval)),
            r is Ok ==> step_effect(*old(self), LunarIR::Enter(eval), *final(self)),
    {
        let cur = self.current;
        let regs = self.reps[cur].regs;
        let locals = self.reps[cur].locals;
        if regs > MAX_REGISTER - 2 {
            return Err(TransformError::RegisterOverflow);
        }
        emit(&mut self.reps, cur, Bytecode { op: OpCode::ENTER, operand: Operand::W(eval) });
        set_counts(&mut self.reps, cur, regs + 2, locals + 1);
        Ok(())
    }

    fn on_store(&mut self, to_pool: bool, idx: usize, text: String) -> (r: Result<(), TransformError>)
        requires
            old(self).inv(),
        ensures
            final(self).inv(),
            r == step_result(*old(self), (if to_pool { LunarIR::PoolString(idx, text) } else { LunarIR::StoreSym(idx, text) })),
            r is Ok ==> step_effect(*old(self), (if to_pool { LunarIR::PoolString(idx, text) } else { LunarIR::StoreSym(idx, text) }), *final(self)),
    {
        let cur = self.current;
        match store_entry(&mut self.reps, cur, to_pool, idx, text) {
            Ok(_) => Ok(()),
            Err(e) => Err(e),
        }
    }

    fn on_call_start(&mut self, sym: usize) -> (r: Result<(), TransformError>)
        requires
            old(self).inv(),
        ensures
            final(self).inv(),
            r == step_result(*old(self), LunarIR::FunctionCallStart(sym)),
            r is Ok ==> step_effect(*old(self), LunarIR::FunctionCallStart(sym), *final(self)),
    {
        let cur = self.current;
        self.old_states.push(self.state);
        let reg = alloc_reg(&mut self.reps, cur)?;
        self.state = TransformState::InFuncall { sym, reg: reg as usize, argsize: 0 };
        Ok(())
    }

    fn on_call_arg(&mut self, pos: usize, value: LunarValue) -> (r: Result<(), TransformError>)
        requires
            old(self).inv(),
        ensures
            final(self).inv(),
            r == step_result(*old(self), LunarIR::FunctionCallArg(pos, value)),
            r is Ok ==> step_effect(*old(self), LunarIR::FunctionCallArg(pos, value), *final(self)),
    {
        let cur = self.current;
        if let TransformState::InFuncall { sym, reg, argsize } = self.state {
            if argsize >= MAX_REGISTER {
                return Err(TransformError::RegisterOverflow);
            }
            let arg_reg = alloc_reg(&mut self.reps, cur)?;
            emit(&mut self.reps, cur, arg_load(arg_reg, value));
            self.state = TransformState::InFuncall { sym, reg, argsize: argsize + 1 };
            Ok(())
        } else {
            Err(TransformError::StateMismatch)
        }
    }

    fn on_call_end(&mut self) -> (r: Result<(), TransformError>)
        requires
            old(self).inv(),
        ensures
            final(self).inv(),
            r == step_result(*old(self), LunarIR::FunctionCallEnd),
            r is Ok ==> step_effect(*old(self), LunarIR::FunctionCallEnd, *final(self)),
    {
        let cur = self.current;
        if let TransformState::InFuncall { sym, reg, argsize } = self.state {
            if reg > self.reps[cur].regs || argsize > MAX_REGISTER || reg + argsize > self.reps[cur].regs
                || self.old_states.len() == 0 {
                return Err(TransformError::StateMismatch);
            }
            let b = Bytecode {
                op: OpCode::SSEND,
                operand: Operand::BBB(reg as u8, (sym % 256) as u8, argsize as u8),
            };
            emit(&mut self.reps, cur, b);
            match self.old_states.pop() {
                Some(s) => {
                    self.state = s;
                    Ok(())
                },
                None => Err(TransformError::StateMismatch),
            }
        } else {
            Err(TransformError::StateMismatch)
        }
    }

    fn on_block(&mut self, b: usize) -> (r: Result<(), TransformError>)
        requires
            old(self).inv(),
        ensures
            final(self).inv(),
            r == step_result(*old(self), LunarIR::Block(b)),
            r is Ok ==> step_effect(*old(self), LunarIR::Block(b), *final(self)),
    {
        let cur = self.current;
        let child = (b % 256) as u8;
        if let TransformState::InFor { reg, sym: _ } = self.state {
            if reg >= MAX_REGISTER {
                return Err(TransformError::RegisterOverflow);
            }
            let target = reg + 1;
            let regs = self.reps[cur].regs;
            if target > regs {
                let locals = self.reps[cur].locals;
                set_counts(&mut self.reps, cur, target, locals);
            }
            emit(&mut self.reps, cur, Bytecode { op: OpCode::BLOCK, operand: Operand::BB(target as u8, child) });
        } else {
            let reg = alloc_reg(&mut self.reps, cur)?;
            emit(&mut self.reps, cur, Bytecode { op: OpCode::BLOCK, operand: Operand::BB(reg, child) });
        }
        Ok(())
    }

    fn on_no_return(&mut self) -> (r: Result<(), TransformError>)
        requires
            old(self).inv(),
        ensures
            final(self).inv(),
            r == step_result(*old(self), LunarIR::NoReturn),
            r is Ok ==> step_effect(*old(self), LunarIR::NoReturn, *final(self)),
    {
        let cur = self.current;
        let ghost o = self.reps@[cur as int];
        let reg = alloc_reg(&mut self.reps, cur)?;
        emit(&mut self.reps, cur, Bytecode { op: OpCode::LOADNIL, operand: Operand::B(reg) });
        emit(&mut self.reps, cur, Bytecode { op: OpCode::RETURN, operand: Operand::B(reg) });
        proof {
            assert(self.reps@[cur as int].insn@ =~= o.insn@ + seq![
                Bytecode { op: OpCode::LOADNIL, operand: Operand::B(reg) },
                Bytecode { op: OpCode::RETURN, operand: Operand::B(reg) },
            ]);
        }
        Ok(())
    }

    fn on_stop(&mut self) -> (r: Result<(), TransformError>)
        requires
            old(self).inv(),
        ensures
            final(self).inv(),
            r == step_result(*old(self), LunarIR::Stop),
            r is Ok ==> step_effect(*old(self), LunarIR::Stop, *final(self)),
    {
        let cur = self.current;
        emit(&mut self.reps, cur, Bytecode { op: OpCode::STOP, operand: Operand::Z });
        Ok(())
    }

    /// Consumes one instruction of the intermediate form.
    pub fn step(&mut self, msg: &LunarIR) -> (r: Result<(), TransformError>)
        requires
            old(self).inv(),
        ensures
            final(self).inv(),
            r == step_result(*old(self), *msg),
            r is Ok ==> step_effect(*old(self), *msg, *final(self)),
    {
        match msg {
            LunarIR::ChunkStart(i) => self.on_chunk_start(*i),
            LunarIR::ChunkEnd => self.on_chunk_end(),
            LunarIR::Local(_) => Err(TransformError::Unimplemented),
            LunarIR::ForStart(sym) => self.on_for_start(*sym),
            LunarIR::ForParam(start, end, step) => self.on_for_param(*start, *end, *step),
            LunarIR::ForEnd => self.on_for_end(),
            LunarIR::Enter(eval) => self.on_enter(*eval),
            LunarIR::StoreSym(idx, name) => self.on_store(false, *idx, name.clone()),
            LunarIR::FunctionCallStart(sym) => self.on_call_start(*sym),
            LunarIR::FunctionCallArg(pos, value) => self.on_call_arg(*pos, *value),
            LunarIR::FunctionCallEnd => self.on_call_end(),
            LunarIR::PoolString(idx, text) => self.on_store(true, *idx, text.clone()),
            LunarIR::Block(b) => self.on_block(*b),
            LunarIR::NoReturn => self.on_no_return(),
            LunarIR::Stop => self.on_stop(),
        }
    }
}

/// Two scopes agree in every count, link and table, by view.
pub open spec fn irep_agree(a: IrepBase, b: IrepBase) -> bool {
    &&& a.locals == b.locals && a.regs == b.regs && a.rep_len == b.rep_len
    &&& a.chandlers == b.chandlers && a.parent == b.parent
    &&& a.insn@ == b.insn@ && a.syms@ == b.syms@ && a.pool@ == b.pool@
}

/// Two machine states agree: same position and contexts, scopes agreeing.
pub open spec fn lowering_agree(a: Lowering, b: Lowering) -> bool {
    &&& a.current == b.current && a.state == b.state && a.old_states@ == b.old_states@
    &&& a.reps@.len() == b.reps@.len()
    &&& forall|k: int| 0 <= k < a.reps@.len() ==> irep_agree(#[trigger] a.reps@[k], b.reps@[k])
}

/// A step is determined by the state it starts from, up to agreement.
pub proof fn step_agrees(o1: Lowering, o2: Lowering, msg: LunarIR, n1: Lowering, n2: Lowering)
    requires
        lowering_agree(o1, o2),
        o1.inv(),
    ensures
        step_result(o1, msg) == step_result(o2, msg),
        step_result(o1, msg) is Ok && step_effect(o1, msg, n1) && step_effect(o2, msg, n2)
            ==> lowering_agree(n1, n2),
{
    let c = o1.current as int;
    assert(irep_agree(o1.reps@[c], o2.reps@[c]));
    if step_result(o1, msg) is Ok && step_effect(o1, msg, n1) && step_effect(o2, msg, n2) {
        assert forall|k: int| 0 <= k < n1.reps@.len() implies irep_agree(#[trigger] n1.reps@[k], n2.reps@[k]) by {
            if k < o1.reps@.len() {
                assert(irep_agree(o1.reps@[k], o2.reps@[k]));
            }
            match msg {
                LunarIR::StoreSym(idx, t) => {
                    assert(n1.reps@[c].syms@ =~= n2.reps@[c].syms@);
                },
                LunarIR::PoolString(idx, t) => {
                    assert(n1.reps@[c].pool@ =~= n2.reps@[c].pool@);
                },
                LunarIR::ChunkStart(i) => {
                    if i != 0 && k == o1.reps@.len() {
                        assert(n1.reps@[k].insn@ =~= n2.reps@[k].insn@);
                        assert(n1.reps@[k].syms@ =~= n2.reps@[k].syms@);
                        assert(n1.reps@[k].pool@ =~= n2.reps@[k].pool@);
                    }
                },
                _ => {},
            }
        }
    }
}

/// Two runs over sequences where one is a prefix of the other agree at
/// every step they share: the run of the machine is determined.
pub proof fn runs_agree(ir: Seq<LunarIR>, ms1: Seq<Lowering>, i: int, ms2: Seq<Lowering>, j: int)
    requires
        0 <= j <= i <= ir.len(),
        lowering_runs(ir.subrange(0, i), ms1),
        lowering_runs(ir.subrange(0, j), ms2),
    ensures
        lowering_agree(ms1[j], ms2[j]),
    decreases j,
{
    if j == 0 {
        assert(ms1[0].reps@.len() == 1 && ms2[0].reps@.len() == 1);
        assert(ms1[0].reps@[0].insn@ =~= ms2[0].reps@[0].insn@);
        assert(ms1[0].reps@[0].syms@ =~= ms2[0].reps@[0].syms@);
        assert(ms1[0].reps@[0].pool@ =~= ms2[0].reps@[0].pool@);
        assert(ms1[0].old_states@ =~= ms2[0].old_states@);
        assert(irep_agree(ms1[0].reps@[0], ms2[0].reps@[0]));
    } else {
        let ir2 = ir.subrange(0, j);
        let ms2p = ms2.subrange(0, j);
        assert(ir2.subrange(0, j - 1) =~= ir.subrange(0, j - 1));
        assert forall|k: int| 0 <= k < j - 1 implies step_result(ms2p[k], ir.subrange(0, j - 1)[k]) is Ok
            && step_effect(ms2p[k], #[trigger] ir.subrange(0, j - 1)[k], ms2p[k + 1]) by {
            assert(ir.subrange(0, j - 1)[k] == ir2[k]);
        }
        runs_agree(ir, ms1, i, ms2p, j - 1);
        assert(ms1[j - 1].inv());
        assert(ir.subrange(0, i)[j - 1] == ir2[j - 1]);
        step_agrees(ms1[j - 1], ms2[j - 1], ir2[j - 1], ms1[j], ms2[j]);
    }
}

/// Lowers an intermediate sequence into its scopes, the root first, each
/// scope after the one that opened it. The result is the scopes of the run
/// of the lowering machine over the whole sequence; an error is the outcome
/// of the first instruction that the machine refuses.
pub fn transform(lunar_ir: &[LunarIR]) -> (r: Result<Vec<IrepBase>, TransformError>)
    ensures
        r is Ok ==> tree_well_formed(r->Ok_0@),
        r is Ok ==> forall|k: int|
            0 <= k < r->Ok_0@.len() ==> irep_well_formed(#[trigger] r->Ok_0@[k]),
        r is Ok ==> exists|ms: Seq<Lowering>|
            #[trigger] lowering_runs(lunar_ir@, ms) && ms.last().reps@ == r->Ok_0@,
        (exists|ms: Seq<Lowering>| #[trigger] lowering_runs(lunar_ir@, ms)) ==> r is Ok,
        r is Err ==> exists|i: int, ms: Seq<Lowering>|
            0 <= i < lunar_ir@.len() && #[trigger] lowering_runs(lunar_ir@.subrange(0, i), ms)
                && step_result(ms.last(), lunar_ir@[i]) == Err::<(), TransformError>(r->Err_0),
{
    let mut m = Lowering::new();
    let ghost mut ms: Seq<Lowering> = seq![m];
    let mut i: usize = 0;
    while i < lunar_ir.len()
        invariant
            m.inv(),
            i <= lunar_ir@.len(),
            lowering_runs(lunar_ir@.subrange(0, i as int), ms),
            ms.last() == m,
        decreases lunar_ir.len() - i,
    {
        let ghost before = m;
        match m.step(&lunar_ir[i]) {
            Ok(_) => {},
            Err(e) => {
                proof {
                    assert forall|ms1: Seq<Lowering>| !lowering_runs(lunar_ir@, ms1) by {
                        if lowering_runs(lunar_ir@, ms1) {
                            assert(lunar_ir@.subrange(0, lunar_ir@.len() as int) =~= lunar_ir@);
                            runs_agree(lunar_ir@, ms1, lunar_ir@.len() as int, ms, i as int);
                            step_agrees(ms1[i as int], ms[i as int], lunar_ir@[i as int], ms1[i as int + 1], ms1[i as int + 1]);
                            assert(step_result(ms1[i as int], lunar_ir@[i as int]) is Ok);
                        }
                    }
                }
                return Err(e);
            },
        }
        proof {
            let ir = lunar_ir@.subrange(0, i + 1);
            let ms2 = ms.push(m);
            assert forall|j: int| 0 <= j < ir.len() implies step_result(ms2[j], ir[j]) is Ok
                && step_effect(ms2[j], #[trigger] ir[j], ms2[j + 1]) by {
                if j < i {
                    assert(ir[j] == lunar_ir@.subrange(0, i as int)[j]);
                }
            }
            assert forall|j: int| 0 <= j < ms2.len() implies (#[trigger] ms2[j]).inv() by {
                if j < ms.len() {
                    assert(ms2[j] == ms[j]);
                }
            }
            ms = ms2;
        }
        i = i + 1;
    }
    proof {
        assert(lunar_ir@.subrange(0, lunar_ir@.len() as int) =~= lunar_ir@);
    }
    Ok(m.reps)
}

/// Some instruction of `ir` names its register count: the count is the
/// highest register it names, given `registers_within`.
pub open spec fn names_register_count(ir: IrepBase) -> bool {
    exists|i: int| 0 <= i < ir.insn@.len() && #[trigger] highest_register(ir.insn@[i]) == Some(ir.regs as int)
}

/// After the implicit return, every register the current scope names is at
/// most its register count, and the count itself is named: the recorded
/// count equals the highest register used.
pub proof fn implicit_return_fixes_register_count(o: Lowering, n: Lowering)
    requires
        o.inv(),
        n.inv(),
        step_result(o, LunarIR::NoReturn) is Ok,
        step_effect(o, LunarIR::NoReturn, n),
    ensures
        registers_within(n.reps@[n.current as int]),
        names_register_count(n.reps@[n.current as int]),
{
    let ir = n.reps@[n.current as int];
    let i = ir.insn@.len() - 1;
    assert(highest_register(ir.insn@[i]) == Some(ir.regs as int));
}

/// `Stop` names no register and keeps the register count, so a scope whose
/// count was the highest register named keeps that property.
pub proof fn stop_keeps_register_count(o: Lowering, n: Lowering)
    requires
        o.inv(),
        step_result(o, LunarIR::Stop) is Ok,
        step_effect(o, LunarIR::Stop, n),
        names_register_count(o.reps@[o.current as int]),
    ensures
        names_register_count(n.reps@[n.current as int]),
{
    let a = o.reps@[o.current as int];
    let b = n.reps@[n.current as int];
    let i = choose|i: int| 0 <= i < a.insn@.len() && #[trigger] highest_register(a.insn@[i]) == Some(a.regs as int);
    assert(b.insn@[i] == a.insn@[i]);
}

/// Following parent links from scope `k` ends at the root, each step going
/// to a scope with a smaller index.
pub open spec fn reaches_root(reps: Seq<IrepBase>, k: int) -> bool
    decreases k,
{
    if k <= 0 {
        k == 0
    } else {
        &&& reps[k].parent is Some
        &&& (reps[k].parent->0 as int) < k
        &&& reaches_root(reps, reps[k].parent->0 as int)
    }
}

/// In a well-formed scope vector every scope reaches the root through its
/// parent links, so the links form one tree rooted at index 0 with no cycle.
pub proof fn tree_reaches_root(reps: Seq<IrepBase>, k: int)
    requires
        tree_well_formed(reps),
        0 <= k < reps.len(),
    ensures
        reaches_root(reps, k),
    decreases k,
{
    if k > 0 {
        assert(reps[k].parent is Some && (reps[k].parent->0 as int) < k);
        tree_reaches_root(reps, reps[k].parent->0 as int);
    }
}

} // verus!
