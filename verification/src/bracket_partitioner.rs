//! The bracket partitioner: a recursive-descent pass grouping a flat token
//! stream into statements, expression separators and nested round, square
//! and curly containers. Each nesting level is parameterized by the one
//! token that ends it and the set of tokens that break it: the closers of
//! the other kinds and the end-of-stream marker, so that a container closed
//! by the wrong bracket, or never closed, is reported with the offending
//! token and its location.

use crate::tokenizer::{copy_token, Loc, Token, TokenStream};
use vstd::prelude::*;

verus! {

/// One node of the partition tree: a separator mark, a flat expression of
/// raw tokens, a statement, or a bracketed container, the latter two owning
/// their own node sequences.
#[derive(Debug, PartialEq)]
pub enum Partitioner {
    ExpressionSeperator,
    Expression(TokenStream),
    Statement(PartitionStream),
    RoundContainer(PartitionStream),
    SquareContainer(PartitionStream),
    CurlyContainer(PartitionStream),
}

/// An ordered sequence of partition nodes.
pub type PartitionStream = Vec<Partitioner>;

/// The mathematical content of a partition node.
pub enum PartNode {
    Separator,
    Expr(Seq<(Token, Loc)>),
    Stmt(Seq<PartNode>),
    Round(Seq<PartNode>),
    Square(Seq<PartNode>),
    Curly(Seq<PartNode>),
}

/// The content of one partition node, nested streams viewed recursively.
pub open spec fn part_node(p: Partitioner) -> PartNode
    decreases p,
{
    match p {
        Partitioner::ExpressionSeperator => PartNode::Separator,
        Partitioner::Expression(ts) => PartNode::Expr(ts@),
        Partitioner::Statement(ps) => PartNode::Stmt(nodes_of(ps@)),
        Partitioner::RoundContainer(ps) => PartNode::Round(nodes_of(ps@)),
        Partitioner::SquareContainer(ps) => PartNode::Square(nodes_of(ps@)),
        Partitioner::CurlyContainer(ps) => PartNode::Curly(nodes_of(ps@)),
    }
}

/// The content of a sequence of partition nodes.
pub open spec fn nodes_of(s: Seq<Partitioner>) -> Seq<PartNode>
    decreases s,
{
    if s.len() == 0 {
        Seq::empty()
    } else {
        nodes_of(s.drop_last()).push(part_node(s.last()))
    }
}

/// One nesting level: the top level, or the inside of one container kind.
#[derive(Debug, PartialEq, Eq, Structural, Clone, Copy)]
pub enum Level {
    Top,
    Round,
    Square,
    Curly,
}

/// The stop token of a level: the token that ends it with success.
pub open spec fn stop_token(lvl: Level) -> Token {
    match lvl {
        Level::Top => Token::EOF,
        Level::Round => Token::CloseRoundBracket,
        Level::Square => Token::CloseSquareBracket,
        Level::Curly => Token::CloseCurlyBracket,
    }
}

/// The fail set of a level: the closers of the other container kinds, and
/// the end-of-stream marker inside any container. Meeting one is a
/// structural mismatch.
pub open spec fn in_fail_set(lvl: Level, t: Token) -> bool {
    match lvl {
        Level::Top => false,
        Level::Round => t == Token::EOF || t == Token::CloseSquareBracket || t
            == Token::CloseCurlyBracket,
        Level::Square => t == Token::EOF || t == Token::CloseRoundBracket || t
            == Token::CloseCurlyBracket,
        Level::Curly => t == Token::EOF || t == Token::CloseRoundBracket || t
            == Token::CloseSquareBracket,
    }
}

/// One level of partitioning, from token `i` on. `expr` is the expression
/// buffer (raw tokens not yet classified), `stmt` the statement buffer
/// (completed nodes of the current statement), `out` the statements
/// already completed at this level. A token of the fail set aborts with
/// that token and its location; the stop token flushes the non-empty
/// buffers and ends the level after it; an opener recurses into a fresh
/// level and appends the container node; a diamond separates expressions
/// within the statement; a newline completes a statement; every other
/// token joins the expression buffer. Running off the end of the stream
/// leaves the buffers unflushed.
pub open spec fn part_spec(
    ts: Seq<(Token, Loc)>,
    i: int,
    lvl: Level,
    expr: Seq<(Token, Loc)>,
    stmt: Seq<PartNode>,
    out: Seq<PartNode>,
) -> Result<(Seq<PartNode>, int), (Token, Loc)>
    decreases ts.len() - i,
{
    if i < 0 || i >= ts.len() {
        Ok((out, i))
    } else {
        let t = ts[i].0;
        let l = ts[i].1;
        if in_fail_set(lvl, t) {
            Err((t, l))
        } else if t == stop_token(lvl) {
            let stmt1 = if expr.len() > 0 {
                stmt.push(PartNode::Expr(expr))
            } else {
                stmt
            };
            let out1 = if stmt1.len() > 0 {
                out.push(PartNode::Stmt(stmt1))
            } else {
                out
            };
            Ok((out1, i + 1))
        } else {
            match t {
                Token::OpenRoundBracket => match part_spec(
                    ts,
                    i + 1,
                    Level::Round,
                    Seq::empty(),
                    Seq::empty(),
                    Seq::empty(),
                ) {
                    Ok(p) => {
                        let j = if p.1 < i + 1 {
                            i + 1
                        } else if p.1 > ts.len() {
                            ts.len() as int
                        } else {
                            p.1
                        };
                        part_spec(
                            ts,
                            j,
                            lvl,
                            Seq::empty(),
                            stmt.push(PartNode::Expr(expr)).push(PartNode::Round(p.0)),
                            out,
                        )
                    },
                    Err(e) => Err(e),
                },
                Token::OpenSquareBracket => match part_spec(
                    ts,
                    i + 1,
                    Level::Square,
                    Seq::empty(),
                    Seq::empty(),
                    Seq::empty(),
                ) {
                    Ok(p) => {
                        let j = if p.1 < i + 1 {
                            i + 1
                        } else if p.1 > ts.len() {
                            ts.len() as int
                        } else {
                            p.1
                        };
                        part_spec(
                            ts,
                            j,
                            lvl,
                            Seq::empty(),
                            stmt.push(PartNode::Expr(expr)).push(PartNode::Square(p.0)),
                            out,
                        )
                    },
                    Err(e) => Err(e),
                },
                Token::OpenCurlyBracket => match part_spec(
                    ts,
                    i + 1,
                    Level::Curly,
                    Seq::empty(),
                    Seq::empty(),
                    Seq::empty(),
                ) {
                    Ok(p) => {
                        let j = if p.1 < i + 1 {
                            i + 1
                        } else if p.1 > ts.len() {
                            ts.len() as int
                        } else {
                            p.1
                        };
                        part_spec(
                            ts,
                            j,
                            lvl,
                            Seq::empty(),
                            stmt.push(PartNode::Expr(expr)).push(PartNode::Curly(p.0)),
                            out,
                        )
                    },
                    Err(e) => Err(e),
                },
                Token::Diamond => part_spec(
                    ts,
                    i + 1,
                    lvl,
                    Seq::empty(),
                    stmt.push(PartNode::Expr(expr)).push(PartNode::Separator),
                    out,
                ),
                Token::NL => {
                    let stmt1 = if expr.len() > 0 {
                        stmt.push(PartNode::Expr(expr))
                    } else {
                        stmt
                    };
                    let out1 = if stmt1.len() > 0 {
                        out.push(PartNode::Stmt(stmt1))
                    } else {
                        out
                    };
                    part_spec(ts, i + 1, lvl, Seq::empty(), Seq::empty(), out1)
                },
                _ => part_spec(ts, i + 1, lvl, expr.push(ts[i]), stmt, out),
            }
        }
    }
}

/// A structural mismatch: the offending token and its location.
#[derive(Debug, PartialEq)]
pub struct StructuralError {
    pub token: Token,
    pub loc: Loc,
}

proof fn lemma_nodes_of_push(s: Seq<Partitioner>, p: Partitioner)
    ensures
        nodes_of(s.push(p)) == nodes_of(s).push(part_node(p)),
{
    assert(s.push(p).drop_last() =~= s);
    assert(s.push(p).last() == p);
}

fn is_stop_exec(lvl: Level, t: &Token) -> (r: bool)
    ensures
        r == (*t == stop_token(lvl)),
{
    match lvl {
        Level::Top => matches!(t, Token::EOF),
        Level::Round => matches!(t, Token::CloseRoundBracket),
        Level::Square => matches!(t, Token::CloseSquareBracket),
        Level::Curly => matches!(t, Token::CloseCurlyBracket),
    }
}

fn in_fail_set_exec(lvl: Level, t: &Token) -> (r: bool)
    ensures
        r == in_fail_set(lvl, *t),
{
    match lvl {
        Level::Top => false,
        Level::Round => matches!(
            t,
            Token::EOF | Token::CloseSquareBracket | Token::CloseCurlyBracket
        ),
        Level::Square => matches!(
            t,
            Token::EOF | Token::CloseRoundBracket | Token::CloseCurlyBracket
        ),
        Level::Curly => matches!(
            t,
            Token::EOF | Token::CloseRoundBracket | Token::CloseSquareBracket
        ),
    }
}

/// One level of partitioning, from token `start` on: the completed
/// statements of this level and the index just past the token that ended
/// it, or the structural mismatch that aborted it. The result is exactly
/// what `part_spec` says of the stream.
#[verifier::loop_isolation(false)]
#[verifier::rlimit(100)]
pub fn process(tokens: &TokenStream, start: usize, lvl: Level) -> (r: Result<
    (PartitionStream, usize),
    StructuralError,
>)
    ensures
        match r {
            Ok(p) => {
                &&& part_spec(tokens@, start as int, lvl, Seq::empty(), Seq::empty(), Seq::empty())
                    == Ok::<(Seq<PartNode>, int), (Token, Loc)>((nodes_of(p.0@), p.1 as int))
                &&& start <= p.1
                &&& start <= tokens@.len() ==> p.1 <= tokens@.len()
            },
            Err(e) => part_spec(tokens@, start as int, lvl, Seq::empty(), Seq::empty(), Seq::empty())
                == Err::<(Seq<PartNode>, int), (Token, Loc)>((e.token, e.loc)),
        },
    decreases tokens@.len() - start,
{
    let n = tokens.len();
    proof {
        assert(nodes_of(Seq::<Partitioner>::empty()) =~= Seq::<PartNode>::empty());
    }
    if start > n {
        return Ok((Vec::new(), start));
    }
    let mut expr: TokenStream = Vec::new();
    let mut stmt: PartitionStream = Vec::new();
    let mut out: PartitionStream = Vec::new();
    let mut i: usize = start;
    while i < n
        invariant
            start <= i <= n,
            part_spec(tokens@, start as int, lvl, Seq::empty(), Seq::empty(), Seq::empty())
                == part_spec(tokens@, i as int, lvl, expr@, nodes_of(stmt@), nodes_of(out@)),
        decreases n - i,
    {
        let pair = &tokens[i];
        let loc = pair.1;
        if in_fail_set_exec(lvl, &pair.0) {
            return Err(StructuralError { token: copy_token(&pair.0), loc });
        }
        if is_stop_exec(lvl, &pair.0) {
            if expr.len() > 0 {
                proof {
                    lemma_nodes_of_push(stmt@, Partitioner::Expression(expr));
                }
                stmt.push(Partitioner::Expression(expr));
            }
            if stmt.len() > 0 {
                proof {
                    lemma_nodes_of_push(out@, Partitioner::Statement(stmt));
                }
                out.push(Partitioner::Statement(stmt));
            }
            return Ok((out, i + 1));
        }
        let ghost expr_v = expr@;
        match &pair.0 {
            Token::OpenRoundBracket => {
                proof {
                    lemma_nodes_of_push(stmt@, Partitioner::Expression(expr));
                }
                stmt.push(Partitioner::Expression(expr));
                expr = Vec::new();
                assert(expr@ =~= Seq::<(Token, Loc)>::empty());
                match process(tokens, i + 1, Level::Round) {
                    Ok(p) => {
                        let (inner, j) = p;
                        proof {
                            lemma_nodes_of_push(stmt@, Partitioner::RoundContainer(inner));
                        }
                        stmt.push(Partitioner::RoundContainer(inner));
                        i = j;
                    },
                    Err(e) => {
                        return Err(e);
                    },
                }
            },
            Token::OpenSquareBracket => {
                proof {
                    lemma_nodes_of_push(stmt@, Partitioner::Expression(expr));
                }
                stmt.push(Partitioner::Expression(expr));
                expr = Vec::new();
                assert(expr@ =~= Seq::<(Token, Loc)>::empty());
                match process(tokens, i + 1, Level::Square) {
                    Ok(p) => {
                        let (inner, j) = p;
                        proof {
                            lemma_nodes_of_push(stmt@, Partitioner::SquareContainer(inner));
                        }
                        stmt.push(Partitioner::SquareContainer(inner));
                        i = j;
                    },
                    Err(e) => {
                        return Err(e);
                    },
                }
            },
            Token::OpenCurlyBracket => {
                proof {
                    lemma_nodes_of_push(stmt@, Partitioner::Expression(expr));
                }
                stmt.push(Partitioner::Expression(expr));
                expr = Vec::new();
                assert(expr@ =~= Seq::<(Token, Loc)>::empty());
                match process(tokens, i + 1, Level::Curly) {
                    Ok(p) => {
                        let (inner, j) = p;
                        proof {
                            lemma_nodes_of_push(stmt@, Partitioner::CurlyContainer(inner));
                        }
                        stmt.push(Partitioner::CurlyContainer(inner));
                        i = j;
                    },
                    Err(e) => {
                        return Err(e);
                    },
                }
            },
            Token::Diamond => {
                proof {
                    lemma_nodes_of_push(stmt@, Partitioner::Expression(expr));
                }
                stmt.push(Partitioner::Expression(expr));
                expr = Vec::new();
                assert(expr@ =~= Seq::<(Token, Loc)>::empty());
                proof {
                    lemma_nodes_of_push(stmt@, Partitioner::ExpressionSeperator);
                }
                stmt.push(Partitioner::ExpressionSeperator);
                i = i + 1;
            },
            Token::NL => {
                if expr.len() > 0 {
                    proof {
                        lemma_nodes_of_push(stmt@, Partitioner::Expression(expr));
                    }
                    stmt.push(Partitioner::Expression(expr));
                    expr = Vec::new();
                    assert(expr@ =~= Seq::<(Token, Loc)>::empty());
                }
                if stmt.len() > 0 {
                    proof {
                        lemma_nodes_of_push(out@, Partitioner::Statement(stmt));
                    }
                    out.push(Partitioner::Statement(stmt));
                    stmt = Vec::new();
                }
                assert(expr@ =~= Seq::<(Token, Loc)>::empty());
                assert(nodes_of(stmt@) =~= Seq::<PartNode>::empty());
                i = i + 1;
            },
            _ => {
                assert((tokens@[i as int].0, tokens@[i as int].1) == tokens@[i as int]);
                expr.push((copy_token(&pair.0), loc));
                assert(expr@ =~= expr_v.push(tokens@[i as int]));
                i = i + 1;
            },
        }
    }
    Ok((out, i))
}

/// Groups a token stream into its top-level statements: one per newline-
/// or end-of-input-delimited clause, each holding expressions, separators
/// and containers, or the first structural mismatch with the offending
/// token and its location.
pub fn tokenize_to_partition(token_stream: TokenStream) -> (r: Result<
    PartitionStream,
    StructuralError,
>)
    ensures
        match r {
            Ok(out) => {
                &&& part_spec(
                    token_stream@,
                    0,
                    Level::Top,
                    Seq::empty(),
                    Seq::empty(),
                    Seq::empty(),
                ) is Ok
                &&& part_spec(
                    token_stream@,
                    0,
                    Level::Top,
                    Seq::empty(),
                    Seq::empty(),
                    Seq::empty(),
                )->Ok_0.0 == nodes_of(out@)
            },
            Err(e) => part_spec(
                token_stream@,
                0,
                Level::Top,
                Seq::empty(),
                Seq::empty(),
                Seq::empty(),
            ) == Err::<(Seq<PartNode>, int), (Token, Loc)>((e.token, e.loc)),
        },
{
    match process(&token_stream, 0, Level::Top) {
        Ok(p) => Ok(p.0),
        Err(e) => Err(e),
    }
}

/// Law: every node a level's output ever holds is a statement. Given an
/// output buffer holding only `Stmt` nodes — the empty buffer every level
/// starts from included — a successful level returns only `Stmt` nodes:
/// the partition stream is exclusively statements, at the top level and
/// inside every container.
pub proof fn lemma_partition_statements(
    ts: Seq<(Token, Loc)>,
    i: int,
    lvl: Level,
    expr: Seq<(Token, Loc)>,
    stmt: Seq<PartNode>,
    out: Seq<PartNode>,
)
    requires
        part_spec(ts, i, lvl, expr, stmt, out) is Ok,
        forall|k: int| 0 <= k < out.len() ==> (#[trigger] out[k]) is Stmt,
    ensures
        ({
            let res = part_spec(ts, i, lvl, expr, stmt, out)->Ok_0.0;
            forall|k: int| 0 <= k < res.len() ==> (#[trigger] res[k]) is Stmt
        }),
    decreases ts.len() - i,
{
    if i < 0 || i >= ts.len() {
    } else {
        let t = ts[i].0;
        if in_fail_set(lvl, t) {
        } else if t == stop_token(lvl) {
        } else {
            match t {
                Token::OpenRoundBracket => {
                    let p = part_spec(ts, i + 1, Level::Round, Seq::empty(), Seq::empty(), Seq::empty())->Ok_0;
                    let j = if p.1 < i + 1 {
                        i + 1
                    } else if p.1 > ts.len() {
                        ts.len() as int
                    } else {
                        p.1
                    };
                    lemma_partition_statements(
                        ts,
                        j,
                        lvl,
                        Seq::empty(),
                        stmt.push(PartNode::Expr(expr)).push(PartNode::Round(p.0)),
                        out,
                    );
                },
                Token::OpenSquareBracket => {
                    let p = part_spec(ts, i + 1, Level::Square, Seq::empty(), Seq::empty(), Seq::empty())->Ok_0;
                    let j = if p.1 < i + 1 {
                        i + 1
                    } else if p.1 > ts.len() {
                        ts.len() as int
                    } else {
                        p.1
                    };
                    lemma_partition_statements(
                        ts,
                        j,
                        lvl,
                        Seq::empty(),
                        stmt.push(PartNode::Expr(expr)).push(PartNode::Square(p.0)),
                        out,
                    );
                },
                Token::OpenCurlyBracket => {
                    let p = part_spec(ts, i + 1, Level::Curly, Seq::empty(), Seq::empty(), Seq::empty())->Ok_0;
                    let j = if p.1 < i + 1 {
                        i + 1
                    } else if p.1 > ts.len() {
                        ts.len() as int
                    } else {
                        p.1
                    };
                    lemma_partition_statements(
                        ts,
                        j,
                        lvl,
                        Seq::empty(),
                        stmt.push(PartNode::Expr(expr)).push(PartNode::Curly(p.0)),
                        out,
                    );
                },
                Token::Diamond => {
                    lemma_partition_statements(
                        ts,
                        i + 1,
                        lvl,
                        Seq::empty(),
                        stmt.push(PartNode::Expr(expr)).push(PartNode::Separator),
                        out,
                    );
                },
                Token::NL => {
                    let stmt1 = if expr.len() > 0 {
                        stmt.push(PartNode::Expr(expr))
                    } else {
                        stmt
                    };
                    let out1 = if stmt1.len() > 0 {
                        out.push(PartNode::Stmt(stmt1))
                    } else {
                        out
                    };
                    lemma_partition_statements(ts, i + 1, lvl, Seq::empty(), Seq::empty(), out1);
                },
                _ => {
                    lemma_partition_statements(ts, i + 1, lvl, expr.push(ts[i]), stmt, out);
                },
            }
        }
    }
}

/// Law: a structural failure names an offending token that really stands
/// in the stream at or after the scan position, with its true location,
/// and that token is a closing bracket or the end-of-stream marker: the
/// error report identifies the mismatch exactly.
pub proof fn lemma_partition_error_names_offender(
    ts: Seq<(Token, Loc)>,
    i: int,
    lvl: Level,
    expr: Seq<(Token, Loc)>,
    stmt: Seq<PartNode>,
    out: Seq<PartNode>,
)
    requires
        part_spec(ts, i, lvl, expr, stmt, out) is Err,
    ensures
        ({
            let e = part_spec(ts, i, lvl, expr, stmt, out)->Err_0;
            exists|j: int|
                {
                    &&& 0 <= j < ts.len()
                    &&& i <= j
                    &&& #[trigger] ts[j] == e
                    &&& (e.0 == Token::EOF || e.0 == Token::CloseRoundBracket || e.0
                        == Token::CloseSquareBracket || e.0 == Token::CloseCurlyBracket)
                }
        }),
    decreases ts.len() - i,
{
    let e = part_spec(ts, i, lvl, expr, stmt, out)->Err_0;
    let t = ts[i].0;
    if in_fail_set(lvl, t) {
        assert(ts[i] == (ts[i].0, ts[i].1));
        assert(ts[i] == e);
    } else {
        match t {
            Token::OpenRoundBracket => {
                if part_spec(ts, i + 1, Level::Round, Seq::empty(), Seq::empty(), Seq::empty())
                    is Err {
                    lemma_partition_error_names_offender(
                        ts,
                        i + 1,
                        Level::Round,
                        Seq::empty(),
                        Seq::empty(),
                        Seq::empty(),
                    );
                } else {
                    let p = part_spec(ts, i + 1, Level::Round, Seq::empty(), Seq::empty(), Seq::empty())->Ok_0;
                    let j = if p.1 < i + 1 {
                        i + 1
                    } else if p.1 > ts.len() {
                        ts.len() as int
                    } else {
                        p.1
                    };
                    lemma_partition_error_names_offender(
                        ts,
                        j,
                        lvl,
                        Seq::empty(),
                        stmt.push(PartNode::Expr(expr)).push(PartNode::Round(p.0)),
                        out,
                    );
                }
            },
            Token::OpenSquareBracket => {
                if part_spec(ts, i + 1, Level::Square, Seq::empty(), Seq::empty(), Seq::empty())
                    is Err {
                    lemma_partition_error_names_offender(
                        ts,
                        i + 1,
                        Level::Square,
                        Seq::empty(),
                        Seq::empty(),
                        Seq::empty(),
                    );
                } else {
                    let p = part_spec(ts, i + 1, Level::Square, Seq::empty(), Seq::empty(), Seq::empty())->Ok_0;
                    let j = if p.1 < i + 1 {
                        i + 1
                    } else if p.1 > ts.len() {
                        ts.len() as int
                    } else {
                        p.1
                    };
                    lemma_partition_error_names_offender(
                        ts,
                        j,
                        lvl,
                        Seq::empty(),
                        stmt.push(PartNode::Expr(expr)).push(PartNode::Square(p.0)),
                        out,
                    );
                }
            },
            Token::OpenCurlyBracket => {
                if part_spec(ts, i + 1, Level::Curly, Seq::empty(), Seq::empty(), Seq::empty())
                    is Err {
                    lemma_partition_error_names_offender(
                        ts,
                        i + 1,
                        Level::Curly,
                        Seq::empty(),
                        Seq::empty(),
                        Seq::empty(),
                    );
                } else {
                    let p = part_spec(ts, i + 1, Level::Curly, Seq::empty(), Seq::empty(), Seq::empty())->Ok_0;
                    let j = if p.1 < i + 1 {
                        i + 1
                    } else if p.1 > ts.len() {
                        ts.len() as int
                    } else {
                        p.1
                    };
                    lemma_partition_error_names_offender(
                        ts,
                        j,
                        lvl,
                        Seq::empty(),
                        stmt.push(PartNode::Expr(expr)).push(PartNode::Curly(p.0)),
                        out,
                    );
                }
            },
            Token::Diamond => {
                lemma_partition_error_names_offender(
                    ts,
                    i + 1,
                    lvl,
                    Seq::empty(),
                    stmt.push(PartNode::Expr(expr)).push(PartNode::Separator),
                    out,
                );
            },
            Token::NL => {
                let stmt1 = if expr.len() > 0 {
                    stmt.push(PartNode::Expr(expr))
                } else {
                    stmt
                };
                let out1 = if stmt1.len() > 0 {
                    out.push(PartNode::Stmt(stmt1))
                } else {
                    out
                };
                lemma_partition_error_names_offender(
                    ts,
                    i + 1,
                    lvl,
                    Seq::empty(),
                    Seq::empty(),
                    out1,
                );
            },
            _ => {
                lemma_partition_error_names_offender(ts, i + 1, lvl, expr.push(ts[i]), stmt, out);
            },
        }
    }
}

/// Rendering a partition tree back to source text is not yet given any
/// behavior: the result is always empty.
pub fn deserialize_to_string(partition_stream: PartitionStream) -> (r: String)
    ensures
        r@ == Seq::<char>::empty(),
{
    let _ = partition_stream;
    String::new()
}

} // verus!
