use vstd::prelude::*;
use vstd::string::StrSliceExecFns;

use crate::array::{Array, ArrayStore};
use crate::dynamic::{DynHeap, Dynamic, Payload, dyn_display, dyn_wf_in};
use crate::text::int_str;

verus! {

/// A text with every single quote doubled, as embedded in a quoted
/// database literal.
pub open spec fn sql_escaped(s: Seq<char>) -> Seq<char>
    decreases s.len(),
{
    if s.len() == 0 {
        Seq::empty()
    } else if s.first() == '\'' {
        seq!['\'', '\''] + sql_escaped(s.drop_first())
    } else {
        seq![s.first()] + sql_escaped(s.drop_first())
    }
}

/// A text in single quotes with embedded quotes doubled.
pub open spec fn sql_quoted(s: Seq<char>) -> Seq<char> {
    seq!['\''] + sql_escaped(s) + seq!['\'']
}

/// What a dynamic value looks like as a database literal: `NULL` for null,
/// integers as decimal text, booleans as `1` or `0`, a float literal as its
/// text, and anything else as its display text in quotes with embedded
/// quotes doubled.
pub open spec fn sql_value_str(v: &Dynamic, h: &DynHeap) -> Seq<char> {
    match v.payload_spec() {
        None => "NULL"@,
        Some(Payload::Int(x)) => int_str(x as int),
        Some(Payload::Bool(b)) => if b { "1"@ } else { "0"@ },
        Some(Payload::FloatLit(s)) => s@,
        _ => sql_quoted(dyn_display(v, h)),
    }
}

/// Render a dynamic value as a database literal; see `sql_value_str`.
pub fn render_sql_value(v: &Dynamic, h: &DynHeap) -> (r: String)
    requires
        dyn_wf_in(v, h),
    ensures
        r@ == sql_value_str(v, h),
{
    proof {
        reveal_strlit("NULL");
        reveal_strlit("1");
        reveal_strlit("0");
    }
    match v.payload_opt() {
        None => "NULL".to_owned(),
        Some(Payload::Int(x)) => crate::text::i32_to_string(*x),
        Some(Payload::Bool(b)) => if *b { "1".to_owned() } else { "0".to_owned() },
        Some(Payload::FloatLit(s)) => s.clone(),
        Some(_) => {
            let raw = v.to_haxe_string(h);
            quote_escaped(raw.as_str())
        },
    }
}

/// The text in single quotes with embedded quotes doubled.
fn quote_escaped(s: &str) -> (r: String)
    ensures
        r@ == sql_quoted(s@),
{
    proof {
        reveal_strlit("'");
        reveal_strlit("''");
    }
    let n = s.unicode_len();
    let mut out = String::new();
    out.append("'");
    let mut i: usize = 0;
    while i < n
        invariant
            n == s@.len(),
            0 <= i <= n,
            out@ == seq!['\''] + sql_escaped(s@.take(i as int)),
        decreases n - i,
    {
        let c = s.get_char(i);
        let is_quote = c == '\'';
        proof {
            reveal_strlit("'");
            reveal_strlit("''");
            lemma_sql_escaped_push(s@.take(i as int), s@[i as int]);
            assert(s@.take(i + 1 as int) =~= s@.take(i as int).push(s@[i as int]));
        }
        if is_quote {
            out.append("''");
            proof {
                assert(out@ =~= seq!['\''] + sql_escaped(s@.take(i + 1 as int)));
            }
        } else {
            let piece = s.substring_char(i, i + 1);
            out.append(piece);
            proof {
                assert(piece@ =~= seq![s@[i as int]]);
                assert(out@ =~= seq!['\''] + sql_escaped(s@.take(i + 1 as int)));
            }
        }
        i = i + 1;
    }
    out.append("'");
    proof {
        assert(s@.take(n as int) =~= s@);
        assert(out@ =~= sql_quoted(s@));
    }
    out
}

/// Escaping distributes over appending one character.
proof fn lemma_sql_escaped_push(s: Seq<char>, c: char)
    ensures
        sql_escaped(s.push(c)) == sql_escaped(s) + (if c == '\'' {
            seq!['\'', '\'']
        } else {
            seq![c]
        }),
    decreases s.len(),
{
    if s.len() == 0 {
        assert(s.push(c).drop_first() =~= Seq::<char>::empty());
        assert(s.push(c).first() == c);
        assert(sql_escaped(Seq::<char>::empty()) == Seq::<char>::empty());
        assert(sql_escaped(s.push(c)) =~= sql_escaped(s) + (if c == '\'' {
            seq!['\'', '\'']
        } else {
            seq![c]
        }));
    } else {
        assert(s.push(c).drop_first() =~= s.drop_first().push(c));
        assert(s.push(c).first() == s.first());
        lemma_sql_escaped_push(s.drop_first(), c);
        assert(sql_escaped(s.push(c)) =~= sql_escaped(s) + (if c == '\'' {
            seq!['\'', '\'']
        } else {
            seq![c]
        }));
    }
}

/// A finished database query: the column names, the fetched rows, and a
/// cursor over them (`current` holds the row the cursor last passed).
#[derive(Debug)]
pub struct QueryResult {
    pub names: Array<String>,
    pub rows: Array<Array<Dynamic>>,
    pub idx: usize,
    pub current: Option<Array<Dynamic>>,
}

impl QueryResult {
    /// A fresh result set with its cursor before the first row.
    pub fn new(names: Array<String>, rows: Array<Array<Dynamic>>) -> (q: QueryResult)
        ensures
            q.names == names,
            q.rows == rows,
            q.idx == 0,
            q.current is None,
    {
        QueryResult { names, rows, idx: 0, current: None }
    }

    /// How many rows the cursor has not yet passed.
    pub fn length(&self, rows_store: &ArrayStore<Array<Dynamic>>) -> (n: i32)
        requires
            rows_store.valid(self.rows),
            rows_store.seq_of(self.rows).len() <= i32::MAX,
        ensures
            ({
                let total = rows_store.seq_of(self.rows).len() as int;
                let used = if self.idx as int > total { total } else { self.idx as int };
                n == total - used
            }),
    {
        let total = self.rows.len(rows_store);
        let used = if self.idx > total { total } else { self.idx };
        #[verifier::truncate] ((total - used) as i32)
    }

    /// How many columns each row has.
    pub fn nfields(&self, names_store: &ArrayStore<String>) -> (n: i32)
        requires
            names_store.valid(self.names),
            names_store.seq_of(self.names).len() <= i32::MAX,
        ensures
            n == names_store.seq_of(self.names).len(),
    {
        #[verifier::truncate] (self.names.len(names_store) as i32)
    }

    /// Move the cursor past the next row, making it current; reports whether
    /// a row was left.
    pub fn advance(&mut self, rows_store: &ArrayStore<Array<Dynamic>>) -> (r: bool)
        requires
            rows_store.valid(old(self).rows),
        ensures
            final(self).names == old(self).names,
            final(self).rows == old(self).rows,
            ({
                let total = rows_store.seq_of(old(self).rows).len();
                if (old(self).idx as int) < total {
                    &&& r
                    &&& final(self).idx == old(self).idx + 1
                    &&& final(self).current == Some(
                        rows_store.seq_of(old(self).rows)[old(self).idx as int],
                    )
                } else {
                    &&& !r
                    &&& final(self).idx == old(self).idx
                    &&& final(self).current is None
                }
            }),
    {
        let total = self.rows.len(rows_store);
        if self.idx < total {
            let row = self.rows.read_at(rows_store, self.idx).clone();
            self.current = Some(row);
            self.idx = self.idx + 1;
            true
        } else {
            self.current = None;
            false
        }
    }
}

} // verus!
