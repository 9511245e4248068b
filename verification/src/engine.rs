//! The extraction engine: walks a parsed stylesheet rule by rule in
//! document order, threading one colour environment through the whole
//! walk. An `@import` suspends the walk; the caller reads the requested
//! file and hands its text back, so the imported rules run to completion
//! before the rule after the import. File access itself stays outside.
use vstd::prelude::*;

use crate::ThemeError;
use crate::ast::Rule;
use crate::ast::RuleV;
use crate::ast::rules_view;
use crate::ast::parse_sheet;
use crate::ast::spec_parse_sheet;
use crate::color::Rgba8;
use crate::color::bytes_chars;
use crate::context::GtkCssParseContext;
use crate::context::spec_resolve;
use crate::context::bytes_eq;
use crate::convert::spec_convert;
use crate::convert::convert;
use crate::mapper::spec_apply_rule;
use crate::mapper::apply_rule;
use crate::record::StyleRecord;
use crate::record::spec_baseline;
use crate::spaces::spec_color_value;
use crate::spaces::color_value;
use crate::token::TokenV;
use crate::token::Token;
use crate::token::toks_view;

verus! {

/// What a `@define-color` rule does to the environment: a literal colour
/// binds its converted value; a lone at-keyword binds whatever that name
/// resolves to right now (alias chains resolve at definition time); any
/// other form binds nothing.
#[verifier::opaque]
pub open spec fn spec_define(
    env: Seq<(Seq<u8>, Rgba8)>,
    name: Seq<u8>,
    value: Seq<TokenV>,
    dark: bool,
) -> Seq<(Seq<u8>, Rgba8)> {
    match spec_color_value(value) {
        Some(cs) => env.push((name, spec_convert(cs, dark))),
        None => if value.len() == 1 && value[0] is AtKeyword {
            match spec_resolve(env, value[0]->AtKeyword_0) {
                Some(c) => env.push((name, c)),
                None => env,
            }
        } else {
            env
        },
    }
}

/// The directory part of a path: everything before the last `/`.
pub open spec fn last_slash(p: Seq<u8>, i: int) -> Option<int>
    decreases i when i <= p.len()
{
    if i <= 0 {
        None
    } else if 0 <= i - 1 < p.len() && p[i - 1] == 47 {
        Some(i - 1)
    } else {
        last_slash(p, i - 1)
    }
}

pub open spec fn dirname(p: Seq<u8>) -> Seq<u8> {
    match last_slash(p, p.len() as int) {
        Some(k) => p.take(k),
        None => Seq::empty(),
    }
}

/// Joins an import target onto the importing file's directory. Absolute
/// targets stand alone.
pub open spec fn join_path(dir: Seq<u8>, rel: Seq<u8>) -> Seq<u8> {
    if rel.len() > 0 && rel[0] == 47 {
        rel
    } else if dir.len() == 0 {
        rel
    } else {
        dir + seq![47u8] + rel
    }
}

pub fn exec_dirname(p: &Vec<u8>) -> (r: Vec<u8>)
    ensures
        r@ == dirname(p@),
{
    let n = p.len();
    let mut i = n;
    while i > 0
        invariant
            i <= n,
            n == p@.len(),
            last_slash(p@, n as int) == last_slash(p@, i as int),
        decreases i,
    {
        i -= 1;
        if p[i] == 47 {
            let r = crate::token::sub_vec_pub(p, 0, i);
            proof {
                assert(r@ =~= p@.take(i as int));
            }
            return r;
        }
    }
    let r: Vec<u8> = Vec::new();
    proof {
        assert(r@ =~= Seq::<u8>::empty());
    }
    r
}

pub fn exec_join_path(dir: &Vec<u8>, rel: &Vec<u8>) -> (r: Vec<u8>)
    ensures
        r@ == join_path(dir@, rel@),
{
    if rel.len() > 0 && rel[0] == 47 {
        crate::ast::dup_bytes(rel)
    } else if dir.len() == 0 {
        crate::ast::dup_bytes(rel)
    } else {
        let mut out = crate::ast::dup_bytes(dir);
        out.push(47);
        let mut i: usize = 0;
        while i < rel.len()
            invariant
                i <= rel@.len(),
                out@ == dir@ + seq![47u8] + rel@.take(i as int),
            decreases rel@.len() - i,
        {
            out.push(rel[i]);
            proof {
                assert(out@ =~= dir@ + seq![47u8] + rel@.take(i + 1));
            }
            i += 1;
        }
        proof {
            assert(rel@.take(rel@.len() as int) =~= rel@);
        }
        out
    }
}

/// One suspended file of the walk: its rules, the next rule to run, and
/// its directory for resolving imports.
pub struct Frame {
    pub rules: Vec<Rule>,
    pub next: usize,
    pub dir: Vec<u8>,
}

pub open spec fn frame_view(f: Frame) -> (Seq<RuleV>, int, Seq<u8>) {
    (rules_view(f.rules@), f.next as int, f.dir@)
}

pub open spec fn stack_view(s: Seq<Frame>) -> Seq<(Seq<RuleV>, int, Seq<u8>)> {
    s.map_values(|f: Frame| frame_view(f))
}

/// Rules not yet run, over the whole stack.
pub open spec fn remaining(stack: Seq<(Seq<RuleV>, int, Seq<u8>)>) -> int
    decreases stack.len(),
{
    if stack.len() == 0 {
        0int
    } else {
        remaining(stack.drop_last()) + (if stack.last().1 < stack.last().0.len() {
            stack.last().0.len() - stack.last().1
        } else {
            0int
        })
    }
}

pub proof fn lemma_remaining_nonneg(stack: Seq<(Seq<RuleV>, int, Seq<u8>)>)
    ensures
        remaining(stack) >= 0,
    decreases stack.len(),
{
    if stack.len() > 0 {
        lemma_remaining_nonneg(stack.drop_last());
    }
}

/// Advancing the top frame by one unfinished rule lowers the remaining
/// count by one.
pub proof fn lemma_remaining_advance(
    stack: Seq<(Seq<RuleV>, int, Seq<u8>)>,
    f2: (Seq<RuleV>, int, Seq<u8>),
)
    requires
        stack.len() > 0,
        f2.0 == stack.last().0,
        f2.1 == stack.last().1 + 1,
        stack.last().1 < stack.last().0.len(),
    ensures
        remaining(stack.update(stack.len() - 1, f2)) == remaining(stack) - 1,
{
    let s2 = stack.update(stack.len() - 1, f2);
    assert(s2.drop_last() =~= stack.drop_last());
    assert(s2.last() == f2);
}

/// The walk, from one machine state to the next stop: either the stack
/// runs dry (the record is finished) or an import asks for a file.
/// Returns the environment, the record, the stack and the requested path.
#[verifier::opaque]
pub open spec fn spec_run(
    env: Seq<(Seq<u8>, Rgba8)>,
    rec: StyleRecord,
    stack: Seq<(Seq<RuleV>, int, Seq<u8>)>,
    dark: bool,
) -> (Seq<(Seq<u8>, Rgba8)>, StyleRecord, Seq<(Seq<RuleV>, int, Seq<u8>)>, Option<Seq<u8>>)
    decreases remaining(stack) + stack.len() when remaining(stack) >= 0
    via spec_run_dec
{
    if stack.len() == 0 {
        (env, rec, stack, None::<Seq<u8>>)
    } else {
        let top = stack.last();
        if top.1 >= top.0.len() {
            spec_run(env, rec, stack.drop_last(), dark)
        } else {
            let rule = top.0[top.1];
            let stack2 = stack.update(stack.len() - 1, (top.0, top.1 + 1, top.2));
            match rule {
                RuleV::Import(u) => (env, rec, stack2, Some(join_path(top.2, u))),
                RuleV::Style(r) => spec_run(env, spec_apply_rule(env, rec, r, dark), stack2, dark),
                RuleV::DefineColor(n, v) => spec_run(spec_define(env, n, v, dark), rec, stack2, dark),
                RuleV::Unknown => spec_run(env, rec, stack2, dark),
            }
        }
    }
}

#[via_fn]
proof fn spec_run_dec(
    env: Seq<(Seq<u8>, Rgba8)>,
    rec: StyleRecord,
    stack: Seq<(Seq<RuleV>, int, Seq<u8>)>,
    dark: bool,
) {
    lemma_remaining_nonneg(stack);
    if stack.len() > 0 {
        let top = stack.last();
        if top.1 >= top.0.len() {
            assert(remaining(stack) == remaining(stack.drop_last()));
            lemma_remaining_nonneg(stack.drop_last());
        } else {
            let stack2 = stack.update(stack.len() - 1, (top.0, top.1 + 1, top.2));
            lemma_remaining_advance(stack, (top.0, top.1 + 1, top.2));
            lemma_remaining_nonneg(stack2);
        }
    }
}

/// What `run` came back with.
#[derive(Debug)]
pub enum RunOutcome {
    /// The walk needs this file before it can continue.
    NeedFile(Vec<u8>),
    /// The walk is complete; the record holds the result.
    Done,
    /// A hard failure was recorded earlier.
    Failed(ThemeError),
}

/// One extraction in progress.
pub struct Extraction {
    pub stack: Vec<Frame>,
    pub ctx: GtkCssParseContext,
    pub record: StyleRecord,
    pub dark: bool,
    pub pending: Option<Vec<u8>>,
    pub failed: Option<ThemeError>,
}

/// The import nesting depth the engine is willing to process.
pub open spec fn depth_limit() -> int {
    64
}

/// What a successful `supply_file` does: the parsed rules are pushed as a
/// new frame whose directory is the requested path's, and the request is
/// cleared.
pub open spec fn supply_ok(pre: Extraction, text: Seq<u8>, post: Extraction) -> bool {
    &&& pre.failed is None
    &&& pre.stack@.len() < depth_limit()
    &&& (pre.pending_view() matches Some(p) && (spec_parse_sheet(text) matches Some(rules)
        && stack_view(post.stack@) == stack_view(pre.stack@).push((rules, 0, dirname(p)))))
    &&& post.pending_view() is None
    &&& post.failed is None
    &&& post.ctx.env() == pre.ctx.env()
    &&& post.record == pre.record
    &&& post.dark == pre.dark
}

/// How `supply_file` fails: an earlier failure repeats; with no file
/// outstanding or imports nested too deep it is a lookup failure; else
/// the text did not parse. Hard failures are recorded and final.
pub open spec fn supply_err(pre: Extraction, text: Seq<u8>, post: Extraction, e: ThemeError) -> bool {
    &&& post.record == pre.record
    &&& post.ctx.env() == pre.ctx.env()
    &&& {
        ||| (pre.failed matches Some(e0) && e == e0 && post.failed == pre.failed)
        ||| (pre.failed is None && pre.pending_view() is None && e == ThemeError::LookupError)
        ||| (pre.failed is None && pre.pending_view() is Some && pre.stack@.len() >= depth_limit()
            && e == ThemeError::LookupError && post.failed == Some(e))
        ||| (pre.failed is None && pre.pending_view() is Some && pre.stack@.len() < depth_limit()
            && spec_parse_sheet(text) is None && e == ThemeError::ParseError && post.failed == Some(
            e,
        ))
    }
}

/// What `run` guarantees: a recorded failure repeats; an outstanding
/// request is repeated; otherwise the state steps to exactly what
/// `spec_run` says, and the outcome mirrors its request.
pub open spec fn run_post(pre: Extraction, post: Extraction, r: RunOutcome) -> bool {
    match pre.failed {
        Some(e) => (r matches RunOutcome::Failed(e2) && e2 == e) && post == pre,
        None => match pre.pending_view() {
            Some(p) => (r matches RunOutcome::NeedFile(q) && q@ == p) && post == pre,
            None => {
                let s2 = spec_run(pre.ctx.env(), pre.record, stack_view(pre.stack@), pre.dark);
                &&& post.ctx.env() == s2.0
                &&& post.record == s2.1
                &&& stack_view(post.stack@) == s2.2
                &&& post.pending_view() == s2.3
                &&& post.failed is None
                &&& post.dark == pre.dark
                &&& (match s2.3 {
                    Some(q) => r matches RunOutcome::NeedFile(q2) && q2@ == q,
                    None => r is Done,
                })
            },
        },
    }
}

impl Extraction {
    pub open spec fn pending_view(&self) -> Option<Seq<u8>> {
        match self.pending {
            Some(p) => Some(p@),
            None => None,
        }
    }

    /// A fresh extraction: the baseline record for the mode, an empty
    /// environment, and the root stylesheet as the first file wanted.
    pub fn new(dark: bool, root: Vec<u8>) -> (r: Extraction)
        ensures
            r.ctx.env() == Seq::<(Seq<u8>, Rgba8)>::empty(),
            r.record == spec_baseline(dark),
            stack_view(r.stack@) == Seq::<(Seq<RuleV>, int, Seq<u8>)>::empty(),
            r.pending_view() == Some(root@),
            r.failed is None,
            r.dark == dark,
    {
        let r = Extraction {
            stack: Vec::new(),
            ctx: GtkCssParseContext::new(),
            record: StyleRecord::baseline(dark),
            dark,
            pending: Some(root),
            failed: None,
        };
        proof {
            assert(stack_view(r.stack@) =~= Seq::<(Seq<RuleV>, int, Seq<u8>)>::empty());
        }
        r
    }

    /// Supplies the text of the file last asked for. Fails with
    /// `ParseError` on malformed text and with `LookupError` when imports
    /// nest deeper than the engine processes; a failure is recorded and
    /// final.
    pub fn supply_file(&mut self, text: &Vec<u8>) -> (r: Result<(), ThemeError>)
        ensures
            match r {
                Ok(()) => supply_ok(*old(self), text@, *final(self)),
                Err(e) => supply_err(*old(self), text@, *final(self), e),
            },
    {
        match &self.failed {
            Some(e) => {
                return Err(*e);
            },
            None => {},
        }
        let p = match &self.pending {
            Some(p0) => crate::ast::dup_bytes(p0),
            None => {
                return Err(ThemeError::LookupError);
            },
        };
        self.pending = None;
        if self.stack.len() >= 64 {
            self.failed = Some(ThemeError::LookupError);
            return Err(ThemeError::LookupError);
        }
        match parse_sheet(text) {
            Err(e) => {
                self.failed = Some(ThemeError::ParseError);
                Err(ThemeError::ParseError)
            },
            Ok(rules) => {
                let dir = exec_dirname(&p);
                let ghost pre = self.stack@;
                self.stack.push(Frame { rules, next: 0, dir });
                proof {
                    assert(stack_view(self.stack@) =~= stack_view(pre).push(
                        stack_view(self.stack@).last(),
                    ));
                }
                Ok(())
            },
        }
    }

    /// Records that the file last asked for could not be read.
    pub fn supply_missing(&mut self)
        ensures
            final(self).failed == Some(ThemeError::IoError),
            final(self).record == old(self).record,
    {
        self.failed = Some(ThemeError::IoError);
    }

    /// Runs rules until the walk finishes or an import needs a file.
    #[verifier::rlimit(100)]
    pub fn run(&mut self) -> (r: RunOutcome)
        ensures
            run_post(*old(self), *final(self), r),
    {
        match &self.failed {
            Some(e) => {
                return RunOutcome::Failed(*e);
            },
            None => {},
        }
        match &self.pending {
            Some(p) => {
                return RunOutcome::NeedFile(crate::ast::dup_bytes(p));
            },
            None => {},
        }
        loop
            invariant
                old(self).failed is None,
                old(self).pending_view() is None,
                self.failed is None,
                self.pending is None,
                self.dark == old(self).dark,
                spec_run(
                    old(self).ctx.env(),
                    old(self).record,
                    stack_view(old(self).stack@),
                    old(self).dark,
                ) == spec_run(self.ctx.env(), self.record, stack_view(self.stack@), self.dark),
            decreases remaining(stack_view(self.stack@)) + stack_view(self.stack@).len(),
        {
            proof {
                reveal(spec_run);
                lemma_remaining_nonneg(stack_view(self.stack@));
            }
            let n = self.stack.len();
            if n == 0 {
                proof {
                    assert(stack_view(self.stack@).len() == 0);
                    assert(spec_run(self.ctx.env(), self.record, stack_view(self.stack@), self.dark)
                        == (self.ctx.env(), self.record, stack_view(self.stack@), None::<Seq<u8>>));
                }
                return RunOutcome::Done;
            }
            proof {
                assert(stack_view(self.stack@).len() == n);
                assert(stack_view(self.stack@).last() == frame_view(self.stack@[n - 1]));
            }
            let top_next = self.stack[n - 1].next;
            let top_len = self.stack[n - 1].rules.len();
            if top_next >= top_len {
                let ghost pre = stack_view(self.stack@);
                self.stack.pop();
                proof {
                    assert(stack_view(self.stack@) =~= pre.drop_last());
                    lemma_remaining_nonneg(stack_view(self.stack@));
                }
                continue ;
            }
            let ghost pre = stack_view(self.stack@);
            let ghost topv = pre.last();
            // Advance the cursor first, then interpret the rule.
            let rule_kind: u8 = match &self.stack[n - 1].rules[top_next] {
                Rule::Import(_) => 1,
                Rule::Style(_) => 2,
                Rule::DefineColor(_, _) => 3,
                Rule::Unknown => 0,
            };
            let mutable = &mut self.stack;
            let frame_next = top_next + 1;
            set_frame_next(mutable, n - 1, frame_next);
            proof {
                assert(stack_view(self.stack@) =~= pre.update(
                    pre.len() - 1,
                    (topv.0, topv.1 + 1, topv.2),
                ));
                lemma_remaining_advance(pre, (topv.0, topv.1 + 1, topv.2));
                lemma_remaining_nonneg(stack_view(self.stack@));
                assert(rules_view(self.stack@[n - 1].rules@)[top_next as int] == self.stack@[n
                    - 1].rules@[top_next as int]@);
            }
            if rule_kind == 1 {
                let u = match &self.stack[n - 1].rules[top_next] {
                    Rule::Import(u) => crate::ast::dup_bytes(u),
                    _ => Vec::new(),
                };
                proof {
                    assert(topv.0[topv.1] == RuleV::Import(u@));
                    assert(frame_view(self.stack@[n - 1]).2 == topv.2);
                }
                let req = exec_join_path(&self.stack[n - 1].dir, &u);
                proof {
                    assert(req@ == join_path(topv.2, u@));
                    assert(spec_run(self.ctx.env(), self.record, pre, self.dark) == (
                        self.ctx.env(),
                        self.record,
                        pre.update(pre.len() - 1, (topv.0, topv.1 + 1, topv.2)),
                        Some(join_path(topv.2, u@)),
                    ));
                }
                self.pending = Some(req);
                let q = match &self.pending {
                    Some(q) => crate::ast::dup_bytes(q),
                    None => Vec::new(),
                };
                return RunOutcome::NeedFile(q);
            } else if rule_kind == 2 {
                let mut rec = self.record;
                match &self.stack[n - 1].rules[top_next] {
                    Rule::Style(sr) => {
                        apply_rule(&self.ctx, &mut rec, sr, self.dark);
                    },
                    _ => {},
                }
                self.record = rec;
            } else if rule_kind == 3 {
                match &self.stack[n - 1].rules[top_next] {
                    Rule::DefineColor(nm, val) => {
                        let name = crate::ast::dup_bytes(nm);
                        define_from_tokens(&mut self.ctx, name, val, self.dark);
                    },
                    _ => {},
                }
            }
        }
    }
}

/// Moves a frame's cursor; a helper so the borrow stays local.
fn set_frame_next(stack: &mut Vec<Frame>, i: usize, next: usize)
    requires
        i < old(stack)@.len(),
    ensures
        final(stack)@.len() == old(stack)@.len(),
        final(stack)@[i as int].rules == old(stack)@[i as int].rules,
        final(stack)@[i as int].dir == old(stack)@[i as int].dir,
        final(stack)@[i as int].next == next,
        forall|k: int|
            0 <= k < old(stack)@.len() && k != i ==> final(stack)@[k] == old(stack)@[k],
{
    let mut f = stack.remove(i);
    f.next = next;
    stack.insert(i, f);
}

/// Applies a `@define-color` binding to the environment.
fn define_from_tokens(ctx: &mut GtkCssParseContext, name: Vec<u8>, value: &Vec<Token>, dark: bool)
    ensures
        final(ctx).env() == spec_define(old(ctx).env(), name@, toks_view(value@), dark),
{
    proof {
        reveal(spec_define);
        assert(toks_view(value@).len() == value@.len());
        if value@.len() == 1 {
            assert(toks_view(value@)[0] == value@[0]@);
        }
    }
    match color_value(value) {
        Some(cs) => {
            let c = convert(&cs, dark);
            ctx.define(name, c);
        },
        None => {
            if value.len() == 1 {
                let target: Option<Vec<u8>> = match &value[0] {
                    Token::AtKeyword(t) => Some(crate::ast::dup_bytes(t)),
                    _ => None,
                };
                match target {
                    Some(t) => {
                        match ctx.resolve(&t) {
                            Some(c) => {
                                ctx.define(name, c);
                            },
                            None => {},
                        }
                    },
                    None => {},
                }
            }
        },
    }
}

// --- driving a whole extraction over an in-memory file set ---

pub open spec fn files_view(v: Seq<(Vec<u8>, Vec<u8>)>) -> Seq<(Seq<u8>, Seq<u8>)> {
    v.map_values(|p: (Vec<u8>, Vec<u8>)| (p.0@, p.1@))
}

/// The first file bound to this path, if any.
pub open spec fn lookup_at(files: Seq<(Seq<u8>, Seq<u8>)>, i: int, p: Seq<u8>) -> Option<Seq<u8>>
    decreases files.len() - i when 0 <= i
{
    if i >= files.len() {
        None
    } else if files[i].0 == p {
        Some(files[i].1)
    } else {
        lookup_at(files, i + 1, p)
    }
}

/// The step budget for one whole extraction; ample for any real theme.
pub open spec fn drive_fuel() -> nat {
    100000
}

/// A whole extraction against a fixed set of files: alternates the walk
/// with file lookups until the record is finished or a hard error stops
/// it. No error leaks a partial record out.
pub open spec fn spec_drive(
    files: Seq<(Seq<u8>, Seq<u8>)>,
    env: Seq<(Seq<u8>, Rgba8)>,
    rec: StyleRecord,
    stack: Seq<(Seq<RuleV>, int, Seq<u8>)>,
    pending: Option<Seq<u8>>,
    dark: bool,
    fuel: nat,
) -> Result<StyleRecord, ThemeError>
    decreases fuel,
{
    if fuel == 0 {
        Err(ThemeError::LookupError)
    } else {
        match pending {
            Some(p) => if stack.len() >= depth_limit() {
                Err(ThemeError::LookupError)
            } else {
                match lookup_at(files, 0, p) {
                    None => Err(ThemeError::IoError),
                    Some(text) => match spec_parse_sheet(text) {
                        None => Err(ThemeError::ParseError),
                        Some(rules) => spec_drive(
                            files,
                            env,
                            rec,
                            stack.push((rules, 0, dirname(p))),
                            None,
                            dark,
                            (fuel - 1) as nat,
                        ),
                    },
                }
            },
            None => {
                let s2 = spec_run(env, rec, stack, dark);
                match s2.3 {
                    Some(p2) => spec_drive(files, s2.0, s2.1, s2.2, Some(p2), dark, (fuel - 1) as nat),
                    None => Ok(s2.1),
                }
            },
        }
    }
}

/// The result of extracting from the root path over these files, starting
/// from the baseline record of the mode.
pub open spec fn spec_extract_files(
    files: Seq<(Seq<u8>, Seq<u8>)>,
    root: Seq<u8>,
    dark: bool,
) -> Result<StyleRecord, ThemeError> {
    spec_drive(
        files,
        Seq::empty(),
        spec_baseline(dark),
        Seq::empty(),
        Some(root),
        dark,
        drive_fuel(),
    )
}

fn lookup_file(files: &Vec<(Vec<u8>, Vec<u8>)>, p: &Vec<u8>) -> (r: Option<Vec<u8>>)
    ensures
        match r {
            Some(t) => lookup_at(files_view(files@), 0, p@) == Some(t@),
            None => lookup_at(files_view(files@), 0, p@) is None,
        },
{
    let ghost fv = files_view(files@);
    proof {
        assert(fv.len() == files@.len());
    }
    let mut i: usize = 0;
    while i < files.len()
        invariant
            i <= files@.len(),
            fv == files_view(files@),
            fv.len() == files@.len(),
            forall|k: int| 0 <= k < fv.len() ==> fv[k] == (files@[k].0@, files@[k].1@),
            lookup_at(fv, 0, p@) == lookup_at(fv, i as int, p@),
        decreases files@.len() - i,
    {
        if bytes_eq(&files[i].0, p) {
            return Some(crate::ast::dup_bytes(&files[i].1));
        }
        i += 1;
    }
    None
}

/// Extracts a style record from an in-memory file set: the whole engine,
/// end to end, with no filesystem involved.
pub fn extract_from_files(
    files: &Vec<(Vec<u8>, Vec<u8>)>,
    root: &Vec<u8>,
    dark: bool,
) -> (r: Result<StyleRecord, ThemeError>)
    ensures
        r == spec_extract_files(files_view(files@), root@, dark),
{
    let ghost fv = files_view(files@);
    let mut ex = Extraction::new(dark, crate::ast::dup_bytes(root));
    let mut fuel: u64 = 100000;
    loop
        invariant
            ex.failed is None,
            ex.dark == dark,
            fuel <= 100000,
            spec_extract_files(fv, root@, dark) == spec_drive(
                fv,
                ex.ctx.env(),
                ex.record,
                stack_view(ex.stack@),
                ex.pending_view(),
                dark,
                fuel as nat,
            ),
            fv == files_view(files@),
        decreases fuel,
    {
        if fuel == 0 {
            return Err(ThemeError::LookupError);
        }
        let has_pending = match &ex.pending {
            Some(_) => true,
            None => false,
        };
        if has_pending {
            if ex.stack.len() >= 64 {
                return Err(ThemeError::LookupError);
            }
            let p = match &ex.pending {
                Some(p0) => crate::ast::dup_bytes(p0),
                None => Vec::new(),
            };
            match lookup_file(files, &p) {
                None => {
                    return Err(ThemeError::IoError);
                },
                Some(text) => {
                    match ex.supply_file(&text) {
                        Ok(()) => {
                            fuel = fuel - 1;
                        },
                        Err(e) => {
                            proof {
                                assert(e == ThemeError::ParseError);
                            }
                            return Err(ThemeError::ParseError);
                        },
                    }
                },
            }
        } else {
            let out = ex.run();
            match out {
                RunOutcome::Done => {
                    return Ok(ex.record);
                },
                RunOutcome::NeedFile(_) => {
                    fuel = fuel - 1;
                },
                RunOutcome::Failed(_) => {
                    proof {
                        assert(false);
                    }
                    return Err(ThemeError::LookupError);
                },
            }
        }
    }
}

/// The candidate stylesheet paths for one theme and GTK major version, in
/// the order they are probed: the user theme directory first, the system
/// directory second, the dark variant before the base file when dark mode
/// is on. The first existing path wins; none existing is a lookup error.
pub open spec fn spec_candidates(
    home: Seq<u8>,
    theme: Seq<u8>,
    version: u8,
    dark: bool,
) -> Seq<Seq<char>> {
    let hc = bytes_chars(home);
    let tc = bytes_chars(theme);
    let v = bytes_chars(seq![(48 + version) as u8]);
    let css: Seq<char> = if dark {
        "gtk-dark.css"@
    } else {
        "gtk.css"@
    };
    let user_base = hc + "/.themes/"@ + tc + "/gtk-"@ + v + ".0/"@;
    let sys_base = "/usr/share/themes/"@ + tc + "/gtk-"@ + v + ".0/"@;
    seq![
        user_base + css,
        user_base + "gtk.css"@,
        sys_base + css,
        sys_base + "gtk.css"@,
    ]
}

/// Builds the candidate paths as byte strings.
pub fn candidate_paths(home: &Vec<u8>, theme: &Vec<u8>, version: u8, dark: bool) -> (r: Vec<
    Vec<u8>,
>)
    requires
        version <= 9,
    ensures
        r@.len() == 4,
        forall|i: int|
            0 <= i < 4 ==> bytes_chars(#[trigger] r@[i]@) == spec_candidates(
                home@,
                theme@,
                version,
                dark,
            )[i],
{
    proof {
        reveal_strlit("/.themes/");
        reveal_strlit("/gtk-");
        reveal_strlit(".0/");
        reveal_strlit("gtk-dark.css");
        reveal_strlit("gtk.css");
        reveal_strlit("/usr/share/themes/");
    }
    let mut user_base: Vec<u8> = Vec::new();
    proof {
        assert(bytes_chars(user_base@) =~= Seq::<char>::empty());
    }
    user_base = push_bytes(user_base, home);
    user_base = crate::convert::push_lit_pub(user_base, "/.themes/");
    user_base = push_bytes(user_base, theme);
    user_base = crate::convert::push_lit_pub(user_base, "/gtk-");
    user_base.push(48 + version);
    user_base = crate::convert::push_lit_pub(user_base, ".0/");
    let mut sys_base: Vec<u8> = Vec::new();
    proof {
        assert(bytes_chars(sys_base@) =~= Seq::<char>::empty());
    }
    sys_base = crate::convert::push_lit_pub(sys_base, "/usr/share/themes/");
    sys_base = push_bytes(sys_base, theme);
    sys_base = crate::convert::push_lit_pub(sys_base, "/gtk-");
    sys_base.push(48 + version);
    sys_base = crate::convert::push_lit_pub(sys_base, ".0/");
    let mut c1 = crate::ast::dup_bytes(&user_base);
    let mut c2 = crate::ast::dup_bytes(&user_base);
    let mut c3 = crate::ast::dup_bytes(&sys_base);
    let mut c4 = crate::ast::dup_bytes(&sys_base);
    if dark {
        c1 = crate::convert::push_lit_pub(c1, "gtk-dark.css");
        c3 = crate::convert::push_lit_pub(c3, "gtk-dark.css");
    } else {
        c1 = crate::convert::push_lit_pub(c1, "gtk.css");
        c3 = crate::convert::push_lit_pub(c3, "gtk.css");
    }
    c2 = crate::convert::push_lit_pub(c2, "gtk.css");
    c4 = crate::convert::push_lit_pub(c4, "gtk.css");
    let mut out: Vec<Vec<u8>> = Vec::new();
    out.push(c1);
    out.push(c2);
    out.push(c3);
    out.push(c4);
    proof {
        assert(bytes_chars(seq![(48 + version) as u8]) =~= seq![(48 + version) as u8 as char]);
        assert(Seq::<char>::empty() + bytes_chars(home@) =~= bytes_chars(home@));
        assert(Seq::<char>::empty() + "/usr/share/themes/"@ =~= "/usr/share/themes/"@);
    }
    out
}

/// Appends raw bytes to a byte text.
fn push_bytes(out: Vec<u8>, s: &Vec<u8>) -> (r: Vec<u8>)
    ensures
        bytes_chars(r@) == bytes_chars(out@) + bytes_chars(s@),
{
    let ghost base = out@;
    let mut acc = out;
    let mut i: usize = 0;
    while i < s.len()
        invariant
            i <= s@.len(),
            bytes_chars(acc@) == bytes_chars(base) + bytes_chars(s@.take(i as int)),
        decreases s@.len() - i,
    {
        let ghost prev = acc@;
        acc.push(s[i]);
        proof {
            assert(bytes_chars(acc@) =~= bytes_chars(prev).push(s@[i as int] as char));
            assert(bytes_chars(s@.take(i + 1)) =~= bytes_chars(s@.take(i as int)).push(
                s@[i as int] as char,
            ));
            assert(bytes_chars(acc@) =~= bytes_chars(base) + bytes_chars(s@.take(i + 1)));
        }
        i += 1;
    }
    proof {
        assert(s@.take(s@.len() as int) =~= s@);
    }
    acc
}

/// A missing root stylesheet is an I/O failure and nothing else: no
/// record leaves the engine.
pub proof fn lemma_missing_root(files: Seq<(Seq<u8>, Seq<u8>)>, root: Seq<u8>, dark: bool)
    requires
        lookup_at(files, 0, root) is None,
    ensures
        spec_extract_files(files, root, dark) == Err::<StyleRecord, ThemeError>(
            ThemeError::IoError,
        ),
{
}

/// Import ordering: an imported file runs to completion before the
/// importing file's next rule. If walking the imported frame alone ends
/// without asking for further files, then walking it on top of any stack
/// produces exactly that whole effect on the environment and the record
/// first, and only then continues with the frames below.
#[verifier::rlimit(100)]
#[verifier::spinoff_prover]
pub proof fn lemma_import_completes(
    env: Seq<(Seq<u8>, Rgba8)>,
    rec: StyleRecord,
    stack: Seq<(Seq<RuleV>, int, Seq<u8>)>,
    g: (Seq<RuleV>, int, Seq<u8>),
    dark: bool,
)
    requires
        spec_run(env, rec, seq![g], dark).3 is None,
    ensures
        spec_run(env, rec, stack.push(g), dark) == spec_run(
            spec_run(env, rec, seq![g], dark).0,
            spec_run(env, rec, seq![g], dark).1,
            stack,
            dark,
        ),
    decreases remaining(seq![g]),
{
    reveal(spec_run);
    lemma_remaining_nonneg(seq![g]);
    let s = stack.push(g);
    assert(s.last() == g);
    assert(s.len() == stack.len() + 1);
    lemma_remaining_nonneg(s);
    lemma_remaining_nonneg(stack);
    if g.1 >= g.0.len() {
        assert(seq![g].drop_last() =~= Seq::<(Seq<RuleV>, int, Seq<u8>)>::empty());
        assert(spec_run(env, rec, seq![g].drop_last(), dark) == (
            env,
            rec,
            seq![g].drop_last(),
            None::<Seq<u8>>,
        ));
        assert(s.drop_last() =~= stack);
    } else {
        let rule = g.0[g.1];
        let g2 = (g.0, g.1 + 1, g.2);
        assert(seq![g].update(0, g2) =~= seq![g2]);
        assert(s.update(s.len() - 1, g2) =~= stack.push(g2));
        lemma_remaining_advance(seq![g], g2);
        assert(seq![g].update(0, g2) == seq![g2]);
        assert(remaining(seq![g2]) == remaining(seq![g]) - 1);
        lemma_remaining_nonneg(s);
        lemma_remaining_nonneg(stack.push(g2));
        lemma_remaining_advance(s, g2);
        match rule {
            RuleV::Import(u) => {
                assert(spec_run(env, rec, seq![g], dark).3 is Some);
            },
            RuleV::Style(r) => {
                lemma_remaining_nonneg(seq![g2]);
                assert(spec_run(env, rec, seq![g], dark) == spec_run(
                    env,
                    spec_apply_rule(env, rec, r, dark),
                    seq![g2],
                    dark,
                ));
                lemma_import_completes(env, spec_apply_rule(env, rec, r, dark), stack, g2, dark);
                assert(spec_run(env, rec, s, dark) == spec_run(
                    env,
                    spec_apply_rule(env, rec, r, dark),
                    stack.push(g2),
                    dark,
                ));
            },
            RuleV::DefineColor(n, v) => {
                lemma_remaining_nonneg(seq![g2]);
                assert(spec_run(env, rec, seq![g], dark) == spec_run(
                    spec_define(env, n, v, dark),
                    rec,
                    seq![g2],
                    dark,
                ));
                lemma_import_completes(spec_define(env, n, v, dark), rec, stack, g2, dark);
                assert(spec_run(env, rec, s, dark) == spec_run(
                    spec_define(env, n, v, dark),
                    rec,
                    stack.push(g2),
                    dark,
                ));
            },
            RuleV::Unknown => {
                lemma_remaining_nonneg(seq![g2]);
                assert(spec_run(env, rec, seq![g], dark) == spec_run(env, rec, seq![g2], dark));
                lemma_import_completes(env, rec, stack, g2, dark);
                assert(spec_run(env, rec, s, dark) == spec_run(env, rec, stack.push(g2), dark));
            },
        }
    }
}

} // verus!
