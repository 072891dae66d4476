//! Construction of a managed process's argument tokens from its configured
//! argument values.
//!
//! A bare primitive becomes one positional token. Inside a flag table, a
//! `true` emits one bare `--key` token, a `false` emits nothing, and any other
//! primitive emits `--key` followed by its token. Every other shape — a nested
//! table, an array, a date-time — is rejected.

use vstd::prelude::*;
use vstd::string::StringExecFns;
use crate::text::{int_digits, push_int, chars_to_string};

verus! {

/// A primitive configured value. A fractional number arrives already rendered
/// to its decimal text, so its token is carried as it stands.
#[derive(Debug, PartialEq, Eq)]
pub enum ArgScalar {
    Text(String),
    Int(i64),
    Decimal(String),
    Flag(bool),
}

/// A value inside a flag table: a primitive, or a shape that argument
/// construction rejects.
#[derive(Debug, PartialEq, Eq)]
pub enum TableValue {
    Value(ArgScalar),
    Unsupported,
}

/// One element of the configured argument list.
#[derive(Debug, PartialEq, Eq)]
pub enum ArgEntry {
    Scalar(ArgScalar),
    Table(Vec<(String, TableValue)>),
    Unsupported,
}

/// Rejection of a configured argument value that has no token form.
#[derive(Clone, Copy, Debug, PartialEq, Eq, Structural)]
pub enum ArgError {
    UnsupportedShape,
}

/// The token of one primitive value.
pub open spec fn scalar_token(s: ArgScalar) -> Seq<char> {
    match s {
        ArgScalar::Text(t) => t@,
        ArgScalar::Int(i) => int_digits(i as int),
        ArgScalar::Decimal(d) => d@,
        ArgScalar::Flag(b) => if b {
            "true"@
        } else {
            "false"@
        },
    }
}

/// The tokens of one `key = value` pair of a flag table.
pub open spec fn pair_tokens(k: Seq<char>, v: TableValue) -> Seq<Seq<char>> {
    match v {
        TableValue::Value(ArgScalar::Flag(b)) => if b {
            seq![seq!['-', '-'] + k]
        } else {
            Seq::<Seq<char>>::empty()
        },
        TableValue::Value(s) => seq![seq!['-', '-'] + k, scalar_token(s)],
        TableValue::Unsupported => Seq::<Seq<char>>::empty(),
    }
}

/// The tokens of a whole flag table, pair by pair in order.
pub open spec fn table_tokens(pairs: Seq<(String, TableValue)>) -> Seq<Seq<char>>
    decreases pairs.len(),
{
    if pairs.len() == 0 {
        Seq::<Seq<char>>::empty()
    } else {
        pair_tokens(pairs[0].0@, pairs[0].1) + table_tokens(pairs.drop_first())
    }
}

/// The tokens of one configured argument element.
pub open spec fn entry_tokens(e: ArgEntry) -> Seq<Seq<char>> {
    match e {
        ArgEntry::Scalar(s) => seq![scalar_token(s)],
        ArgEntry::Table(pairs) => table_tokens(pairs@),
        ArgEntry::Unsupported => Seq::<Seq<char>>::empty(),
    }
}

/// The tokens of the whole configured argument list, element by element.
pub open spec fn entries_tokens(es: Seq<ArgEntry>) -> Seq<Seq<char>>
    decreases es.len(),
{
    if es.len() == 0 {
        Seq::<Seq<char>>::empty()
    } else {
        entry_tokens(es[0]) + entries_tokens(es.drop_first())
    }
}

/// Whether every value of a flag table has a token form.
pub open spec fn table_ok(pairs: Seq<(String, TableValue)>) -> bool {
    forall|i: int| 0 <= i < pairs.len() ==> !(pairs[i].1 is Unsupported)
}

/// Whether one configured element has a token form.
pub open spec fn entry_ok(e: ArgEntry) -> bool {
    match e {
        ArgEntry::Scalar(_) => true,
        ArgEntry::Table(pairs) => table_ok(pairs@),
        ArgEntry::Unsupported => false,
    }
}

/// Whether the whole configured argument list has a token form.
pub open spec fn entries_ok(es: Seq<ArgEntry>) -> bool {
    forall|i: int| 0 <= i < es.len() ==> entry_ok(es[i])
}

proof fn lemma_table_tokens_snoc(s: Seq<(String, TableValue)>, p: (String, TableValue))
    ensures
        table_tokens(s.push(p)) == table_tokens(s) + pair_tokens(p.0@, p.1),
    decreases s.len(),
{
    if s.len() == 0 {
        let e = s.push(p).drop_first();
        assert(e =~= Seq::<(String, TableValue)>::empty());
        assert(table_tokens(e) == Seq::<Seq<char>>::empty());
        assert(s.push(p)[0] == p);
        assert(table_tokens(s.push(p)) =~~= table_tokens(s) + pair_tokens(p.0@, p.1));
    } else {
        lemma_table_tokens_snoc(s.drop_first(), p);
        assert(s.push(p).drop_first() =~= s.drop_first().push(p));
        assert(s.push(p)[0] == s[0]);
        assert(table_tokens(s.push(p)) == pair_tokens(s[0].0@, s[0].1) + (table_tokens(
            s.drop_first(),
        ) + pair_tokens(p.0@, p.1)));
        assert(table_tokens(s.push(p)) =~~= table_tokens(s) + pair_tokens(p.0@, p.1));
    }
}

proof fn lemma_entries_tokens_snoc(s: Seq<ArgEntry>, e: ArgEntry)
    ensures
        entries_tokens(s.push(e)) == entries_tokens(s) + entry_tokens(e),
    decreases s.len(),
{
    if s.len() == 0 {
        let t = s.push(e).drop_first();
        assert(t =~= Seq::<ArgEntry>::empty());
        assert(entries_tokens(t) == Seq::<Seq<char>>::empty());
        assert(s.push(e)[0] == e);
        assert(entries_tokens(s.push(e)) =~~= entries_tokens(s) + entry_tokens(e));
    } else {
        lemma_entries_tokens_snoc(s.drop_first(), e);
        assert(s.push(e).drop_first() =~= s.drop_first().push(e));
        assert(s.push(e)[0] == s[0]);
        assert(entries_tokens(s.push(e)) == entry_tokens(s[0]) + (entries_tokens(s.drop_first())
            + entry_tokens(e)));
        assert(entries_tokens(s.push(e)) =~~= entries_tokens(s) + entry_tokens(e));
    }
}

/// The token of one primitive value.
pub fn render_scalar(s: &ArgScalar) -> (r: String)
    ensures
        r@ == scalar_token(*s),
{
    match s {
        ArgScalar::Text(t) => t.clone(),
        ArgScalar::Decimal(d) => d.clone(),
        ArgScalar::Int(i) => {
            let mut v: Vec<char> = Vec::new();
            push_int(&mut v, *i);
            chars_to_string(&v)
        },
        ArgScalar::Flag(b) => {
            if *b {
                String::from_str("true")
            } else {
                String::from_str("false")
            }
        },
    }
}

/// The `--key` token of a flag table entry.
pub fn dash_key(k: &String) -> (r: String)
    ensures
        r@ == seq!['-', '-'] + k@,
{
    let mut s = String::from_str("--");
    s.append(k.as_str());
    proof {
        reveal_strlit("--");
        assert(s@ =~= seq!['-', '-'] + k@);
    }
    s
}

/// Materialize the argument tokens of a configured argument list.
///
/// Succeeds exactly when no element (and no table value) is of an unsupported
/// shape, and then yields the tokens element by element: positional tokens for
/// bare primitives, `--key` (with the value's token unless it is a boolean)
/// for table pairs, nothing for a `false` boolean.
pub fn build_args(entries: &Vec<ArgEntry>) -> (r: Result<Vec<String>, ArgError>)
    ensures
        r is Ok <==> entries_ok(entries@),
        r matches Ok(v) ==> v.deep_view() == entries_tokens(entries@),
{
    let mut out: Vec<String> = Vec::new();
    let mut i: usize = 0;
    while i < entries.len()
        invariant
            i <= entries.len(),
            out.deep_view() == entries_tokens(entries@.take(i as int)),
            forall|j: int| 0 <= j < i ==> entry_ok(entries@[j]),
        decreases entries.len() - i,
    {
        let ghost prefix = entries@.take(i as int);
        let e = &entries[i];
        match e {
            ArgEntry::Scalar(s) => {
                let tok = render_scalar(s);
                out.push(tok);
            },
            ArgEntry::Table(pairs) => {
                let mut p: usize = 0;
                while p < pairs.len()
                    invariant
                        p <= pairs.len(),
                        entries@[i as int] == ArgEntry::Table(*pairs),
                        i < entries.len(),
                        out.deep_view() == entries_tokens(prefix) + table_tokens(
                            pairs@.take(p as int),
                        ),
                        forall|q: int| 0 <= q < p ==> !(pairs@[q].1 is Unsupported),
                    decreases pairs.len() - p,
                {
                    let pair = &pairs[p];
                    let ghost tpre = pairs@.take(p as int);
                    let ghost dv0 = out.deep_view();
                    let ghost cur = pairs@[p as int];
                    match &pair.1 {
                        TableValue::Value(val) => {
                            match val {
                                ArgScalar::Flag(b) => {
                                    if *b {
                                        out.push(dash_key(&pair.0));
                                        assert(out.deep_view() =~~= dv0 + pair_tokens(
                                            cur.0@,
                                            cur.1,
                                        ));
                                    } else {
                                        assert(out.deep_view() =~~= dv0 + pair_tokens(
                                            cur.0@,
                                            cur.1,
                                        ));
                                    }
                                },
                                _ => {
                                    out.push(dash_key(&pair.0));
                                    out.push(render_scalar(val));
                                    assert(out.deep_view() =~~= dv0 + pair_tokens(cur.0@, cur.1));
                                },
                            }
                        },
                        TableValue::Unsupported => {
                            proof {
                                assert(!entry_ok(entries@[i as int]));
                            }
                            return Err(ArgError::UnsupportedShape);
                        },
                    }
                    p += 1;
                    proof {
                        lemma_table_tokens_snoc(tpre, pairs@[p - 1]);
                        assert(pairs@.take(p as int) =~= tpre.push(pairs@[p - 1]));
                        assert(out.deep_view() =~~= entries_tokens(prefix) + table_tokens(
                            pairs@.take(p as int),
                        ));
                    }
                }
                proof {
                    assert(pairs@.take(pairs@.len() as int) =~= pairs@);
                }
            },
            ArgEntry::Unsupported => {
                proof {
                    assert(!entry_ok(entries@[i as int]));
                }
                return Err(ArgError::UnsupportedShape);
            },
        }
        i += 1;
        proof {
            lemma_entries_tokens_snoc(prefix, entries@[i - 1]);
            assert(entries@.take(i as int) =~= prefix.push(entries@[i - 1]));
            assert(out.deep_view() =~= entries_tokens(entries@.take(i as int)));
        }
    }
    proof {
        assert(entries@.take(entries@.len() as int) =~= entries@);
    }
    Ok(out)
}

} // verus!
