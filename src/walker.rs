use vstd::prelude::*;

use crate::ast::{Args, Block, Chunk, Construct, Expr, FunctionCall, LastStat, PrefixExp, Stat, Var};
use crate::lunarir::{LunarIR, LunarValue};
use crate::packer::text_bytes;
use vstd::string::StringSliceAdditionalSpecFns;

verus! {

broadcast use vstd::std_specs::vec::group_vec_axioms;

/// The arity word of the `ENTER` that opens every non-root scope.
pub const ENTER_ARITY: u32 = 0x40000;

/// The UTF-8 bytes of a string literal as written.
pub open spec fn literal_bytes(s: String) -> Seq<u8> {
    text_bytes(s)
}

/// A literal's content can be cut out: it has a first and a last byte, and
/// both cuts fall on character boundaries.
pub open spec fn literal_has_content(s: String) -> bool {
    let b = literal_bytes(s);
    &&& b.len() >= 2
    &&& vstd::utf8::is_char_boundary(b, b.len() - 1)
    &&& vstd::utf8::is_char_boundary(b.subrange(0, b.len() - 1), 1)
}

/// The bytes between a literal's first and last byte: its quotes.
pub open spec fn literal_content(s: String) -> Seq<u8> {
    let b = literal_bytes(s);
    b.subrange(1, b.len() - 1)
}

/// The text of a string literal without its enclosing quotes.
pub fn strip_quotes(s: &String) -> (r: Option<String>)
    ensures
        r is Some <==> literal_has_content(*s),
        r is Some ==> text_bytes(r->0) == literal_content(*s),
{
    let t = s.as_str();
    let n = t.as_bytes().len();
    proof {
        assert(t.spec_bytes() == literal_bytes(*s));
    }
    if n < 2 || !t.is_char_boundary(n - 1) {
        return None;
    }
    let (front, _) = t.split_at(n - 1);
    proof {
        assert(front.spec_bytes() == literal_bytes(*s).subrange(0, n - 1));
    }
    if !front.is_char_boundary(1) {
        return None;
    }
    let (_, content) = front.split_at(1);
    let r = content.to_owned();
    proof {
        assert(text_bytes(r) == content.spec_bytes());
        assert(content.spec_bytes() =~= literal_content(*s));
    }
    Some(r)
}

/// Why a tree could not be walked.
#[derive(Debug, Clone, Copy, PartialEq, Eq, Structural)]
pub enum WalkError {
    /// A construct outside the lowered subset, by its kind.
    Unsupported(Construct),
    /// A counter would pass the largest `usize`.
    Overflow,
}

/// Per-scope allocation counters.
#[derive(Debug, Clone, Copy, PartialEq, Eq, Structural)]
pub struct IrepIndices {
    pub locals: usize,
    pub syms: usize,
    pub pool: usize,
    /// Child scopes opened so far: the index the next one gets.
    pub children: usize,
}

/// Walks a tree depth first and emits the intermediate sequence.
///
/// Scope ids are handed out in order from 0; `idx_of_ireps[id]` holds the
/// counters of scope `id`, and `idx_of_irep` is the next id to hand out.
#[derive(Debug)]
pub struct Walker {
    pub msg_stack: Vec<LunarIR>,
    pub idx_of_irep: usize,
    pub current_irep: usize,
    pub idx_of_ireps: Vec<IrepIndices>,
}

impl Walker {
    pub open spec fn wf(&self) -> bool {
        &&& self.idx_of_ireps@.len() == self.idx_of_irep + 1
        &&& self.current_irep <= self.idx_of_irep
    }

    /// The counters of the current scope.
    pub open spec fn counters(&self) -> IrepIndices {
        self.idx_of_ireps@[self.current_irep as int]
    }

    /// Nothing but the message sequence and the current scope's counters changed,
    /// and the sequence only grew by `added`.
    pub open spec fn emitted(&self, old: &Walker, added: Seq<LunarIR>) -> bool {
        &&& self.msg_stack@ == old.msg_stack@ + added
        &&& self.idx_of_irep == old.idx_of_irep
        &&& self.current_irep == old.current_irep
        &&& self.idx_of_ireps@.len() == old.idx_of_ireps@.len()
        &&& forall|k: int|
            0 <= k < self.idx_of_ireps@.len() && k != self.current_irep ==> self.idx_of_ireps@[k]
                == old.idx_of_ireps@[k]
    }

    pub fn new() -> (r: Self)
        ensures
            r.wf(),
            r.msg_stack@.len() == 0,
            r.idx_of_irep == 0,
            r.current_irep == 0,
            r.counters() == (IrepIndices { locals: 0, syms: 0, pool: 0, children: 0 }),
            r.wview() == initial_walk(),
    {
        let mut idx_of_ireps = Vec::new();
        idx_of_ireps.push(IrepIndices { locals: 0, syms: 0, pool: 0, children: 0 });
        let w = Walker { msg_stack: Vec::new(), idx_of_irep: 0, current_irep: 0, idx_of_ireps };
        proof {
            assert(w.wview().counters =~= initial_walk().counters);
        }
        w
    }

    pub fn push_msg(&mut self, msg: LunarIR)
        ensures
            final(self).msg_stack@ == old(self).msg_stack@.push(msg),
            final(self).idx_of_irep == old(self).idx_of_irep,
            final(self).current_irep == old(self).current_irep,
            final(self).idx_of_ireps == old(self).idx_of_ireps,
    {
        self.msg_stack.push(msg);
    }

    /// Sets the counters of the current scope.
    fn set_counters(&mut self, c: IrepIndices)
        requires
            old(self).wf(),
        ensures
            final(self).wf(),
            final(self).msg_stack == old(self).msg_stack,
            final(self).idx_of_irep == old(self).idx_of_irep,
            final(self).current_irep == old(self).current_irep,
            final(self).idx_of_ireps@ == old(self).idx_of_ireps@.update(old(self).current_irep as int, c),
    {
        let cur = self.current_irep;
        self.idx_of_ireps.set(cur, c);
    }

    /// Takes the next symbol index of the current scope.
    fn next_sym(&mut self) -> (r: Result<usize, WalkError>)
        requires
            old(self).wf(),
        ensures
            final(self).wf(),
            match r {
                Ok(i) => {
                    &&& i == old(self).counters().syms
                    &&& i < usize::MAX
                    &&& final(self).emitted(old(self), seq![])
                    &&& final(self).counters() == (IrepIndices { syms: (i + 1) as usize, ..old(self).counters() })
                },
                Err(e) => e == WalkError::Overflow && old(self).counters().syms == usize::MAX
                    && *final(self) == *old(self),
            },
    {
        let c = self.idx_of_ireps[self.current_irep];
        if c.syms == usize::MAX {
            return Err(WalkError::Overflow);
        }
        self.set_counters(IrepIndices { syms: c.syms + 1, ..c });
        Ok(c.syms)
    }

    /// Takes the next string-pool index of the current scope.
    fn next_pool(&mut self) -> (r: Result<usize, WalkError>)
        requires
            old(self).wf(),
        ensures
            final(self).wf(),
            match r {
                Ok(i) => {
                    &&& i == old(self).counters().pool
                    &&& i < usize::MAX
                    &&& final(self).emitted(old(self), seq![])
                    &&& final(self).counters() == (IrepIndices { pool: (i + 1) as usize, ..old(self).counters() })
                },
                Err(e) => e == WalkError::Overflow && old(self).counters().pool == usize::MAX
                    && *final(self) == *old(self),
            },
    {
        let c = self.idx_of_ireps[self.current_irep];
        if c.pool == usize::MAX {
            return Err(WalkError::Overflow);
        }
        self.set_counters(IrepIndices { pool: c.pool + 1, ..c });
        Ok(c.pool)
    }

    /// The integral value of a number literal; any other expression is refused.
    pub fn ensure_expr_as_number(&mut self, expr: &Expr) -> (r: Result<usize, WalkError>)
        ensures
            *final(self) == *old(self),
            match expr {
                Expr::Number(n) => r == Ok::<usize, WalkError>(*n),
                Expr::Other(k) => r == Err::<usize, WalkError>(WalkError::Unsupported(*k)),
            },
    {
        match expr {
            Expr::Number(n) => Ok(*n),
            Expr::Other(k) => Err(WalkError::Unsupported(*k)),
        }
    }

    /// A bare name gets a fresh symbol slot of the current scope.
    pub fn walk_var(&mut self, var: &Var) -> (r: Result<(), WalkError>)
        requires
            old(self).wf(),
        ensures
            final(self).wf(),
            r is Err ==> *final(self) == *old(self),
            match var {
                Var::VarName(name) => {
                    let i = old(self).counters().syms;
                    match r {
                        Ok(_) => {
                            &&& i < usize::MAX
                            &&& final(self).emitted(old(self), seq![LunarIR::StoreSym(i, *name)])
                            &&& final(self).counters() == (IrepIndices { syms: (i + 1) as usize, ..old(self).counters() })
                        },
                        Err(e) => e == WalkError::Overflow && i == usize::MAX,
                    }
                },
                Var::Other(k) => r == Err::<(), WalkError>(WalkError::Unsupported(*k)),
            },
    {
        match var {
            Var::VarName(name) => {
                let i = self.next_sym()?;
                self.push_msg(LunarIR::StoreSym(i, name.clone()));
                Ok(())
            },
            Var::Other(k) => Err(WalkError::Unsupported(*k)),
        }
    }

    pub fn walk_prefixexpr(&mut self, prefix_expr: &PrefixExp) -> (r: Result<(), WalkError>)
        requires
            old(self).wf(),
        ensures
            final(self).wf(),
            r is Err ==> *final(self) == *old(self),
            match prefix_expr {
                PrefixExp::PrefixVar(Var::VarName(name)) => {
                    let i = old(self).counters().syms;
                    match r {
                        Ok(_) => {
                            &&& i < usize::MAX
                            &&& final(self).emitted(old(self), seq![LunarIR::StoreSym(i, *name)])
                            &&& final(self).counters() == (IrepIndices { syms: (i + 1) as usize, ..old(self).counters() })
                        },
                        Err(e) => e == WalkError::Overflow && i == usize::MAX,
                    }
                },
                PrefixExp::PrefixVar(Var::Other(k)) => r == Err::<(), WalkError>(WalkError::Unsupported(*k)),
                PrefixExp::Other(k) => r == Err::<(), WalkError>(WalkError::Unsupported(*k)),
            },
    {
        match prefix_expr {
            PrefixExp::PrefixVar(var) => self.walk_var(var),
            PrefixExp::Other(k) => Err(WalkError::Unsupported(*k)),
        }
    }

    /// A string-literal argument goes to the current scope's string pool and
    /// is passed by its pool index.
    pub fn walk_args(&mut self, args: &Args) -> (r: Result<(), WalkError>)
        requires
            old(self).wf(),
        ensures
            final(self).wf(),
            r is Err ==> *final(self) == *old(self),
            match args {
                Args::ArgsString(lit) => {
                    let p = old(self).counters().pool;
                    &&& !literal_has_content(*lit) ==> r == Err::<(), WalkError>(WalkError::Unsupported(Construct::MalformedString))
                    &&& literal_has_content(*lit) && p == usize::MAX ==> r == Err::<(), WalkError>(WalkError::Overflow)
                    &&& literal_has_content(*lit) && p < usize::MAX ==> {
                        &&& r is Ok
                        &&& final(self).msg_stack@.len() == old(self).msg_stack@.len() + 2
                        &&& exists|c: String| #[trigger] text_bytes(c) == literal_content(*lit)
                            && final(self).emitted(old(self), seq![
                            LunarIR::PoolString(p, c),
                            LunarIR::FunctionCallArg(0, LunarValue::String(p)),
                        ])
                        &&& final(self).counters() == (IrepIndices { pool: (p + 1) as usize, ..old(self).counters() })
                    }
                },
                Args::Other(k) => r == Err::<(), WalkError>(WalkError::Unsupported(*k)),
            },
    {
        match args {
            Args::ArgsString(lit) => {
                let content = match strip_quotes(lit) {
                    Some(c) => c,
                    None => {
                        return Err(WalkError::Unsupported(Construct::MalformedString));
                    },
                };
                let p = self.next_pool()?;
                let ghost c = content;
                self.push_msg(LunarIR::PoolString(p, content));
                self.push_msg(LunarIR::FunctionCallArg(0, LunarValue::String(p)));
                proof {
                    assert(self.msg_stack@ =~= old(self).msg_stack@ + seq![
                        LunarIR::PoolString(p, c),
                        LunarIR::FunctionCallArg(0, LunarValue::String(p)),
                    ]);
                    assert(text_bytes(c) == literal_content(*lit));
                    assert(self.emitted(old(self), seq![
                        LunarIR::PoolString(p, c),
                        LunarIR::FunctionCallArg(0, LunarValue::String(p)),
                    ]));
                }
                Ok(())
            },
            Args::Other(k) => Err(WalkError::Unsupported(*k)),
        }
    }

    /// The state the lowering reads.
    pub open spec fn wview(&self) -> WalkView {
        WalkView { next: self.idx_of_irep, current: self.current_irep, counters: self.idx_of_ireps@ }
    }

    /// Takes the next child index of the current scope.
    fn next_child(&mut self) -> (r: Result<usize, WalkError>)
        requires
            old(self).wf(),
        ensures
            final(self).wf(),
            match r {
                Ok(i) => {
                    &&& i == old(self).counters().children
                    &&& i < usize::MAX
                    &&& final(self).emitted(old(self), seq![])
                    &&& final(self).counters() == (IrepIndices { children: (i + 1) as usize, ..old(self).counters() })
                },
                Err(e) => e == WalkError::Overflow && old(self).counters().children == usize::MAX,
            },
    {
        let c = self.idx_of_ireps[self.current_irep];
        if c.children == usize::MAX {
            return Err(WalkError::Overflow);
        }
        self.set_counters(IrepIndices { children: c.children + 1, ..c });
        Ok(c.children)
    }

    /// Walks a whole tree as the root scope.
    pub fn walk(&mut self, root: &Block) -> (r: Result<(), WalkError>)
        requires
            old(self).wf(),
        ensures
            final(self).wf(),
            walked(lower_chunk(root.0, old(self).wview()), r, final(self).msg_stack@, old(self).msg_stack@, final(self).wview()),
            r is Ok ==> final(self).current_irep == old(self).current_irep,
            r is Ok ==> final(self).msg_stack@.len() >= old(self).msg_stack@.len(),
            r is Ok ==> final(self).msg_stack@.subrange(0, old(self).msg_stack@.len() as int) == old(self).msg_stack@,
    {
        self.walk_block(root)
    }

    pub fn walk_block(&mut self, block: &Block) -> (r: Result<(), WalkError>)
        requires
            old(self).wf(),
        ensures
            final(self).wf(),
            walked(lower_chunk(block.0, old(self).wview()), r, final(self).msg_stack@, old(self).msg_stack@, final(self).wview()),
            r is Ok ==> final(self).current_irep == old(self).current_irep,
            r is Ok ==> final(self).msg_stack@.len() >= old(self).msg_stack@.len(),
            r is Ok ==> final(self).msg_stack@.subrange(0, old(self).msg_stack@.len() as int) == old(self).msg_stack@,
        decreases block,
    {
        self.walk_chunk(&block.0)
    }

    /// Walks a chunk as a fresh scope: see `lower_chunk`.
    pub fn walk_chunk(&mut self, chunk: &Chunk) -> (r: Result<(), WalkError>)
        requires
            old(self).wf(),
        ensures
            final(self).wf(),
            walked(lower_chunk(*chunk, old(self).wview()), r, final(self).msg_stack@, old(self).msg_stack@, final(self).wview()),
            r is Ok ==> final(self).current_irep == old(self).current_irep,
            r is Ok ==> final(self).msg_stack@.len() >= old(self).msg_stack@.len(),
            r is Ok ==> final(self).msg_stack@.subrange(0, old(self).msg_stack@.len() as int) == old(self).msg_stack@,
        decreases chunk,
    {
        let ghost st = self.wview();
        let ghost base = self.msg_stack@;
        let id = self.idx_of_irep;
        if id == usize::MAX {
            return Err(WalkError::Overflow);
        }
        self.push_msg(LunarIR::ChunkStart(id));
        let before_irep = self.current_irep;
        self.current_irep = id;
        self.idx_of_irep = id + 1;
        self.idx_of_ireps.push(IrepIndices { locals: 0, syms: 0, pool: 0, children: 0 });
        if self.current_irep != 0 {
            self.push_msg(LunarIR::Enter(ENTER_ARITY));
            let c = self.idx_of_ireps[self.current_irep];
            self.set_counters(IrepIndices { locals: 1, ..c });
        }
        let ghost st1 = self.wview();
        let ghost pre = self.msg_stack@.subrange(base.len() as int, self.msg_stack@.len() as int);
        proof {
            assert(st1 == chunk_entry(st));
            assert(pre =~= chunk_prelude(id));
            assert(self.msg_stack@ =~= base + pre);
            lemma_same_refl(self.msg_stack@);
            assert(chunk.0@.subrange(0, 0) =~= Seq::<Stat>::empty());
        }
        let mut i: usize = 0;
        while i < chunk.0.len()
            invariant
                self.wf(),
                self.current_irep == id,
                id == st.next,
                id < usize::MAX,
                st == old(self).wview(),
                before_irep == st.current,
                i <= chunk.0@.len(),
                st1 == chunk_entry(st),
                pre == chunk_prelude(id),
                self.msg_stack@.len() >= base.len() + pre.len(),
                self.msg_stack@.subrange(0, (base.len() + pre.len()) as int) == base + pre,
                lower_stats(chunk.0@.subrange(0, i as int), st1) is Ok,
                seq_same_ir(self.msg_stack@, base + pre + lower_stats(chunk.0@.subrange(0, i as int), st1)->Ok_0.0),
                self.wview() == lower_stats(chunk.0@.subrange(0, i as int), st1)->Ok_0.1,
            decreases chunk.0@.len() - i,
        {
            let ghost prev = self.msg_stack@;
            let ghost sti = self.wview();
            let ghost msi = lower_stats(chunk.0@.subrange(0, i as int), st1)->Ok_0.0;
            let r = self.walk_stat(&chunk.0[i]);
            proof {
                let s1 = chunk.0@.subrange(0, i + 1);
                assert(s1.subrange(0, i as int) =~= chunk.0@.subrange(0, i as int));
                assert(s1[i as int] == chunk.0@[i as int]);
            }
            match r {
                Ok(_) => {},
                Err(e) => {
                    proof {
                        let s1 = chunk.0@.subrange(0, i + 1);
                        assert(s1.subrange(0, s1.len() - 1) =~= chunk.0@.subrange(0, i as int));
                        assert(lower_stat(s1[s1.len() - 1], sti) == Err::<(Seq<LunarIR>, WalkView), WalkError>(e));
                        assert(lower_stats(s1, st1) == Err::<(Seq<LunarIR>, WalkView), WalkError>(e));
                        lemma_stats_err_prefix(chunk.0@, st1, i + 1);
                    }
                    return Err(e);
                },
            }
            proof {
                let ms2 = lower_stat(chunk.0@[i as int], sti)->Ok_0.0;
                lemma_same_split(self.msg_stack@, prev, ms2);
                lemma_same_append(prev, base + pre + msi, self.msg_stack@.subrange(prev.len() as int, self.msg_stack@.len() as int), ms2);
                assert(prev + self.msg_stack@.subrange(prev.len() as int, self.msg_stack@.len() as int) =~= self.msg_stack@);
                assert(base + pre + msi + ms2 =~= base + pre + (msi + ms2));
            }
            proof {
                assert(self.msg_stack@.subrange(0, (base.len() + pre.len()) as int) =~= prev.subrange(0, (base.len() + pre.len()) as int));
            }
            i = i + 1;
        }
        proof {
            assert(chunk.0@.subrange(0, chunk.0@.len() as int) =~= chunk.0@);
        }
        let ghost ms = lower_stats(chunk.0@, st1)->Ok_0.0;
        let ghost mid = self.msg_stack@;
        match &chunk.1 {
            Some(last_stat) => {
                return self.walk_laststat(last_stat);
            },
            None => self.push_msg(LunarIR::NoReturn),
        }
        if self.current_irep == 0 {
            self.push_msg(LunarIR::Stop);
        } else {
            self.current_irep = before_irep;
        }
        self.push_msg(LunarIR::ChunkEnd);
        proof {
            let tail = self.msg_stack@.subrange(mid.len() as int, self.msg_stack@.len() as int);
            assert(tail =~= chunk_tail(id));
            lemma_same_refl(tail);
            lemma_same_append(mid, base + pre + ms, tail, chunk_tail(id));
            assert(mid + tail =~= self.msg_stack@);
            assert(base + pre + ms + chunk_tail(id) =~= base + (pre + ms + chunk_tail(id)));
            assert(self.msg_stack@.subrange(0, base.len() as int) =~= mid.subrange(0, (base.len() + pre.len()) as int).subrange(0, base.len() as int));
        }
        Ok(())
    }

    /// Walks one statement: see `lower_stat`.
    pub fn walk_stat(&mut self, stat: &Stat) -> (r: Result<(), WalkError>)
        requires
            old(self).wf(),
        ensures
            final(self).wf(),
            walked(lower_stat(*stat, old(self).wview()), r, final(self).msg_stack@, old(self).msg_stack@, final(self).wview()),
            r is Ok ==> final(self).current_irep == old(self).current_irep,
            r is Ok ==> final(self).msg_stack@.len() >= old(self).msg_stack@.len(),
            r is Ok ==> final(self).msg_stack@.subrange(0, old(self).msg_stack@.len() as int) == old(self).msg_stack@,
        decreases stat,
    {
        let ghost o = self.msg_stack@;
        let ghost st = self.wview();
        match stat {
            Stat::FunctionCall(function_call) => {
                self.walk_prefixexpr(&function_call.0)?;
                let sym = self.idx_of_ireps[self.current_irep].syms - 1;
                self.push_msg(LunarIR::FunctionCallStart(sym));
                let ghost mid = self.msg_stack@;
                let ghost p = self.counters().pool;
                self.walk_args(&function_call.2)?;
                let ghost after_args = self.msg_stack@;
                self.push_msg(LunarIR::FunctionCallEnd);
                proof {
                    if let (PrefixExp::PrefixVar(Var::VarName(name)), Args::ArgsString(lit)) = (&function_call.0, &function_call.2) {
                        let c = choose|c: String| #[trigger] text_bytes(c) == literal_content(*lit)
                            && after_args == mid + seq![
                            LunarIR::PoolString(p, c),
                            LunarIR::FunctionCallArg(0, LunarValue::String(p)),
                        ];
                        assert(self.msg_stack@ =~= o + call_messages(sym, *name, p, c));
                        lemma_same_refl(o);
                        lemma_call_same(sym, *name, p, c, pool_text(*lit));
                        lemma_same_append(o, o, call_messages(sym, *name, p, c), call_messages(sym, *name, p, pool_text(*lit)));
                        assert(self.wview().counters =~= lower_stat(*stat, st)->Ok_0.1.counters);
                    }
                }
                Ok(())
            },
            Stat::For(_name, expr, expr1, expr2, block) => {
                let begin = self.ensure_expr_as_number(expr)?;
                let end = self.ensure_expr_as_number(expr1)?;
                let step = match expr2 {
                    Some(e) => self.ensure_expr_as_number(e)?,
                    None => 1,
                };
                let sym = self.next_sym()?;
                let child = self.next_child()?;
                let each = "each".to_owned();
                proof {
                    reveal_strlit("each");
                }
                let ghost each_name = each;
                self.push_msg(LunarIR::StoreSym(sym, each));
                self.push_msg(LunarIR::ForStart(sym));
                self.push_msg(LunarIR::ForParam(begin, end, step));
                self.push_msg(LunarIR::Block(child));
                let ghost mid = self.msg_stack@;
                let ghost st1 = self.wview();
                proof {
                    assert(each_name@ == seq!['e', 'a', 'c', 'h']);
                    assert(text_bytes(each_name) == vstd::utf8::encode_utf8(seq!['e', 'a', 'c', 'h']));
                    assert(text_bytes(loop_symbol_name()) == text_bytes(each_name));
                    assert(st1.counters =~= for_entry(st, st.counters[st.current as int]).counters);
                }
                let r = self.walk_block(block);
                r?;
                let ghost after_block = self.msg_stack@;
                self.push_msg(LunarIR::ForEnd);
                proof {
                    let c = st.counters[st.current as int];
                    let head = for_head(c.syms, begin, end, step, c.children);
                    let ms = lower_chunk(block.0, st1)->Ok_0.0;
                    let body = self.msg_stack@.subrange(mid.len() as int, self.msg_stack@.len() as int - 1);
                    assert(mid =~= o + seq![
                        LunarIR::StoreSym(sym, each_name),
                        LunarIR::ForStart(sym),
                        LunarIR::ForParam(begin, end, step),
                        LunarIR::Block(child),
                    ]);
                    assert(mid + body + seq![LunarIR::ForEnd] =~= self.msg_stack@);
                    lemma_same_refl(o);
                    assert(seq_same_ir(seq![
                        LunarIR::StoreSym(sym, each_name),
                        LunarIR::ForStart(sym),
                        LunarIR::ForParam(begin, end, step),
                        LunarIR::Block(child),
                    ], head));
                    lemma_same_append(o, o, mid.subrange(o.len() as int, mid.len() as int), head);
                    assert(o + mid.subrange(o.len() as int, mid.len() as int) =~= mid);
                    assert(body =~= self.msg_stack@.subrange(0, self.msg_stack@.len() - 1).subrange(mid.len() as int, self.msg_stack@.len() - 1));
                    assert(self.msg_stack@.subrange(0, self.msg_stack@.len() - 1) =~= after_block);
                    assert(after_block.subrange(0, mid.len() as int) == mid);
                    lemma_same_split(after_block, mid, ms);
                    lemma_same_append(mid, o + head, body, ms);
                    lemma_same_refl(seq![LunarIR::ForEnd]);
                    lemma_same_append(mid + body, o + head + ms, seq![LunarIR::ForEnd], seq![LunarIR::ForEnd]);
                    assert(o + head + ms + seq![LunarIR::ForEnd] =~= o + (head + ms + seq![LunarIR::ForEnd]));
                }
                Ok(())
            },
            Stat::Other(k) => Err(WalkError::Unsupported(*k)),
        }
    }

    /// A final statement (`return`, `break`) has no lowering yet.
    pub fn walk_laststat(&mut self, last_stat: &LastStat) -> (r: Result<(), WalkError>)
        ensures
            *final(self) == *old(self),
            match last_stat {
                LastStat::Return => r == Err::<(), WalkError>(WalkError::Unsupported(Construct::Return)),
                LastStat::Break => r == Err::<(), WalkError>(WalkError::Unsupported(Construct::Break)),
            },
    {
        match last_stat {
            LastStat::Return => Err(WalkError::Unsupported(Construct::Return)),
            LastStat::Break => Err(WalkError::Unsupported(Construct::Break)),
        }
    }
}

/// The walker's state as the lowering reads it: the next scope id, the
/// current scope, and each scope's counters by id.
pub struct WalkView {
    pub next: usize,
    pub current: usize,
    pub counters: Seq<IrepIndices>,
}

/// What the lowering of one construct gives: its messages and the state
/// after it, or the error it stops with.
pub type Lowered = Result<(Seq<LunarIR>, WalkView), WalkError>;

/// A walk that `spec` describes went as described: the same error, or
/// success with the described messages appended and the described state.
pub open spec fn walked(spec: Lowered, r: Result<(), WalkError>, now: Seq<LunarIR>, before: Seq<LunarIR>, st: WalkView) -> bool {
    match spec {
        Ok((ms, st2)) => r is Ok && seq_same_ir(now, before + ms) && st == st2,
        Err(e) => r == Err::<(), WalkError>(e),
    }
}

/// Two messages agree, their strings compared by their UTF-8 bytes.
pub open spec fn same_ir(a: LunarIR, b: LunarIR) -> bool {
    match a {
        LunarIR::StoreSym(i, x) => b is StoreSym && b->StoreSym_0 == i && text_bytes(b->StoreSym_1) == text_bytes(x),
        LunarIR::PoolString(i, x) => b is PoolString && b->PoolString_0 == i && text_bytes(b->PoolString_1)
            == text_bytes(x),
        _ => a == b,
    }
}

/// Two message sequences agree message by message.
pub open spec fn seq_same_ir(a: Seq<LunarIR>, b: Seq<LunarIR>) -> bool {
    &&& a.len() == b.len()
    &&& forall|i: int| 0 <= i < a.len() ==> same_ir(#[trigger] a[i], b[i])
}

proof fn lemma_same_refl(a: Seq<LunarIR>)
    ensures
        seq_same_ir(a, a),
{
}

proof fn lemma_same_append(a: Seq<LunarIR>, b: Seq<LunarIR>, x: Seq<LunarIR>, y: Seq<LunarIR>)
    requires
        seq_same_ir(a, b),
        seq_same_ir(x, y),
    ensures
        seq_same_ir(a + x, b + y),
{
    assert forall|i: int| 0 <= i < (a + x).len() implies same_ir(#[trigger] (a + x)[i], (b + y)[i]) by {
        if i >= a.len() {
            assert(same_ir(x[i - a.len()], y[i - a.len()]));
        }
    }
}

/// A sequence that agrees with `b + ms` splits after `b`'s length.
proof fn lemma_same_split(a: Seq<LunarIR>, b: Seq<LunarIR>, ms: Seq<LunarIR>)
    requires
        seq_same_ir(a, b + ms),
        a.subrange(0, b.len() as int) == b,
    ensures
        seq_same_ir(a.subrange(b.len() as int, a.len() as int), ms),
{
    let t = a.subrange(b.len() as int, a.len() as int);
    assert forall|i: int| 0 <= i < t.len() implies same_ir(#[trigger] t[i], ms[i]) by {
        assert(same_ir(a[i + b.len()], (b + ms)[i + b.len()]));
    }
}

proof fn lemma_call_same(s: usize, name: String, p: usize, c1: String, c2: String)
    requires
        text_bytes(c1) == text_bytes(c2),
    ensures
        seq_same_ir(call_messages(s, name, p, c1), call_messages(s, name, p, c2)),
{
    assert(same_ir(call_messages(s, name, p, c1)[2], call_messages(s, name, p, c2)[2]));
}

/// The content of a string literal, as a pool string.
pub open spec fn pool_text(lit: String) -> String {
    choose|c: String| text_bytes(c) == literal_content(lit)
}

/// The name of a numeric loop's symbol.
pub open spec fn loop_symbol_name() -> String {
    choose|c: String| #[trigger] text_bytes(c) == vstd::utf8::encode_utf8(seq!['e', 'a', 'c', 'h'])
}

/// The state of a fresh walker: the root scope, id 0, is next.
pub open spec fn initial_walk() -> WalkView {
    WalkView { next: 0, current: 0, counters: seq![IrepIndices { locals: 0, syms: 0, pool: 0, children: 0 }] }
}

/// `st` with the current scope's counters set to `c`.
pub open spec fn with_counters(st: WalkView, c: IrepIndices) -> WalkView {
    WalkView { counters: st.counters.update(st.current as int, c), ..st }
}

/// The messages of a call whose callee is the bare name `name`, taking
/// symbol slot `s`, and whose one argument is the pool string `c` at `p`.
pub open spec fn call_messages(s: usize, name: String, p: usize, c: String) -> Seq<LunarIR> {
    seq![
        LunarIR::StoreSym(s, name),
        LunarIR::FunctionCallStart(s),
        LunarIR::PoolString(p, c),
        LunarIR::FunctionCallArg(0, LunarValue::String(p)),
        LunarIR::FunctionCallEnd,
    ]
}

/// The messages that open a numeric loop: its symbol at slot `s`, the
/// bounds, and the body's child index `child`.
pub open spec fn for_head(s: usize, begin: usize, end: usize, step: usize, child: usize) -> Seq<LunarIR> {
    seq![
        LunarIR::StoreSym(s, loop_symbol_name()),
        LunarIR::ForStart(s),
        LunarIR::ForParam(begin, end, step),
        LunarIR::Block(child),
    ]
}

/// The state in which a loop body is walked: the loop took a symbol slot
/// and a child index of the current scope.
pub open spec fn for_entry(st: WalkView, c: IrepIndices) -> WalkView {
    with_counters(st, IrepIndices { syms: (c.syms + 1) as usize, children: (c.children + 1) as usize, ..c })
}

/// The lowering of one statement from state `st`: a call with a bare-name
/// callee and one string literal, or a numeric `for` with number-literal
/// bounds; anything else stops with its construct kind.
pub open spec fn lower_stat(stat: Stat, st: WalkView) -> Lowered
    decreases stat,
{
    let c = st.counters[st.current as int];
    match stat {
        Stat::Other(k) => Err(WalkError::Unsupported(k)),
        Stat::FunctionCall(FunctionCall(PrefixExp::Other(k), _, _)) => Err(WalkError::Unsupported(k)),
        Stat::FunctionCall(FunctionCall(PrefixExp::PrefixVar(Var::Other(k)), _, _)) => Err(WalkError::Unsupported(k)),
        Stat::FunctionCall(FunctionCall(PrefixExp::PrefixVar(Var::VarName(name)), _, args)) => {
            if c.syms == usize::MAX {
                Err(WalkError::Overflow)
            } else {
                match args {
                    Args::Other(k) => Err(WalkError::Unsupported(k)),
                    Args::ArgsString(lit) => {
                        if !literal_has_content(lit) {
                            Err(WalkError::Unsupported(Construct::MalformedString))
                        } else if c.pool == usize::MAX {
                            Err(WalkError::Overflow)
                        } else {
                            Ok((
                                call_messages(c.syms, name, c.pool, pool_text(lit)),
                                with_counters(st, IrepIndices { syms: (c.syms + 1) as usize, pool: (c.pool + 1) as usize, ..c }),
                            ))
                        }
                    },
                }
            }
        },
        Stat::For(_, Expr::Other(k), _, _, _) => Err(WalkError::Unsupported(k)),
        Stat::For(_, Expr::Number(_), Expr::Other(k), _, _) => Err(WalkError::Unsupported(k)),
        Stat::For(_, Expr::Number(_), Expr::Number(_), Some(Expr::Other(k)), _) => Err(WalkError::Unsupported(k)),
        Stat::For(_, Expr::Number(b), Expr::Number(e), step, body) => {
            let stp: usize = match step {
                Some(Expr::Number(x)) => x,
                _ => 1,
            };
            if c.syms == usize::MAX || c.children == usize::MAX {
                Err(WalkError::Overflow)
            } else {
                match lower_chunk(body.0, for_entry(st, c)) {
                    Err(err) => Err(err),
                    Ok((ms, st2)) => Ok((for_head(c.syms, b, e, stp, c.children) + ms + seq![LunarIR::ForEnd], st2)),
                }
            }
        },
    }
}

/// The lowering of a statement list, in order, each from the state the
/// previous one left; the first error stops it.
pub open spec fn lower_stats(stats: Seq<Stat>, st: WalkView) -> Lowered
    decreases stats,
{
    if stats.len() == 0 {
        Ok((seq![], st))
    } else {
        match lower_stats(stats.subrange(0, stats.len() - 1), st) {
            Err(e) => Err(e),
            Ok((m, st1)) => match lower_stat(stats[stats.len() - 1], st1) {
                Err(e) => Err(e),
                Ok((m2, st2)) => Ok((m + m2, st2)),
            },
        }
    }
}

/// The state in which a chunk's statements are walked: it is scope
/// `st.next`, the next id is handed on, and a non-root scope has one local.
pub open spec fn chunk_entry(st: WalkView) -> WalkView {
    let id = st.next;
    let counters = st.counters.push(IrepIndices { locals: 0, syms: 0, pool: 0, children: 0 });
    WalkView {
        next: (id + 1) as usize,
        current: id,
        counters: if id != 0 {
            counters.update(id as int, IrepIndices { locals: 1, ..counters[id as int] })
        } else {
            counters
        },
    }
}

/// `ChunkStart(id)`, then for a non-root scope the `ENTER` marker.
pub open spec fn chunk_prelude(id: usize) -> Seq<LunarIR> {
    if id != 0 {
        seq![LunarIR::ChunkStart(id), LunarIR::Enter(ENTER_ARITY)]
    } else {
        seq![LunarIR::ChunkStart(id)]
    }
}

/// The implicit return, `Stop` for the root only, and `ChunkEnd`.
pub open spec fn chunk_tail(id: usize) -> Seq<LunarIR> {
    if id == 0 {
        seq![LunarIR::NoReturn, LunarIR::Stop, LunarIR::ChunkEnd]
    } else {
        seq![LunarIR::NoReturn, LunarIR::ChunkEnd]
    }
}

/// The lowering of a chunk as scope `st.next`: its prelude, its statements,
/// its tail. A final statement has no lowering yet. The current scope is
/// the chunk's parent again afterwards.
pub open spec fn lower_chunk(chunk: Chunk, st: WalkView) -> Lowered
    decreases chunk,
{
    let id = st.next;
    if id == usize::MAX {
        Err(WalkError::Overflow)
    } else {
        match lower_stats(chunk.0@, chunk_entry(st)) {
            Err(e) => Err(e),
            Ok((ms, st2)) => match chunk.1 {
                Some(LastStat::Return) => Err(WalkError::Unsupported(Construct::Return)),
                Some(LastStat::Break) => Err(WalkError::Unsupported(Construct::Break)),
                None => Ok((
                    chunk_prelude(id) + ms + chunk_tail(id),
                    if id == 0 { st2 } else { WalkView { current: st.current, ..st2 } },
                )),
            },
        }
    }
}

proof fn lemma_stats_err_prefix(s: Seq<Stat>, st: WalkView, j: int)
    requires
        0 <= j <= s.len(),
        lower_stats(s.subrange(0, j), st) is Err,
    ensures
        lower_stats(s, st) == lower_stats(s.subrange(0, j), st),
    decreases s.len() - j,
{
    if j < s.len() {
        let t = s.subrange(0, j + 1);
        assert(t.subrange(0, t.len() - 1) =~= s.subrange(0, j));
        lemma_stats_err_prefix(s, st, j + 1);
    } else {
        assert(s.subrange(0, s.len() as int) =~= s);
    }
}

} // verus!
