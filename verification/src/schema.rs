//! The schema evolution path: folding user-submitted table definitions into
//! the live schema, under the same write-serialization discipline as the
//! writer.

use vstd::prelude::*;
use vstd::hash_map::StringHashMap;
use vstd::string::StringExecFns;

use crate::api::{HTTP_INTERNAL_SERVER_ERROR, HTTP_OK, RqliteResponse, RqliteResult};

verus! {

/// The in-memory schema: table definitions by table name. The definition is
/// held as the table's normalized SQL text; what is inside it is the host
/// parser's business.
pub struct Schema {
    pub tables: StringHashMap<String>,
}

/// The schema after a batch of parsed tables has been folded in, first to
/// last: each parsed definition overwrites, by name, whatever was held —
/// users are expected to submit full table definitions.
pub open spec fn overlay(
    tables: Map<Seq<char>, String>,
    parsed: Seq<(String, String)>,
) -> Map<Seq<char>, String>
    decreases parsed.len(),
{
    if parsed.len() == 0 {
        tables
    } else {
        overlay(tables.insert(parsed[0].0@, parsed[0].1), parsed.skip(1))
    }
}

impl Schema {
    /// The empty schema.
    pub fn new() -> (r: Schema)
        ensures
            r.tables@ == Map::<Seq<char>, String>::empty(),
    {
        Schema { tables: StringHashMap::new() }
    }

    /// The definition held for `name`, when the schema has that table.
    pub fn get_table(&self, name: &str) -> (r: Option<&String>)
        ensures
            match r {
                Some(def) => self.tables@.contains_key(name@) && *def == self.tables@[name@],
                None => !self.tables@.contains_key(name@),
            },
    {
        self.tables.get(name)
    }

    /// Folds a batch of parsed table definitions into the schema, overwriting
    /// by name. The caller runs this only once the definitions have been
    /// applied to the database, so a failed application leaves the live
    /// schema untouched.
    #[verifier::loop_isolation(false)]
    pub fn apply_parsed_tables(&mut self, parsed: Vec<(String, String)>)
        ensures
            final(self).tables@ == overlay(old(self).tables@, parsed@),
    {
        let mut rest = parsed;
        while rest.len() > 0
            invariant
                overlay(old(self).tables@, parsed@) == overlay(self.tables@, rest@),
            decreases rest@.len(),
        {
            let ghost pre = rest@;
            let (name, def) = rest.remove(0);
            proof {
                assert(pre.remove(0) =~= pre.skip(1));
            }
            self.tables.insert(name, def);
        }
    }
}

/// Folding a batch in keeps the last definition submitted under each name:
/// a parsed entry not followed by another of the same name is exactly what
/// the merged schema holds under that name.
pub proof fn lemma_schema_keeps_submitted_tables(
    tables: Map<Seq<char>, String>,
    parsed: Seq<(String, String)>,
    i: int,
)
    requires
        0 <= i < parsed.len(),
        forall|j: int| i < j < parsed.len() ==> (#[trigger] parsed[j]).0@ != parsed[i].0@,
    ensures
        overlay(tables, parsed).contains_key(parsed[i].0@),
        overlay(tables, parsed)[parsed[i].0@] == parsed[i].1,
    decreases parsed.len(),
{
    let t2 = tables.insert(parsed[0].0@, parsed[0].1);
    if i == 0 {
        lemma_overlay_keeps_others(t2, parsed.skip(1), parsed[0].0@);
    } else {
        assert forall|j: int|
            i - 1 < j < parsed.skip(1).len() implies (#[trigger] parsed.skip(1)[j]).0@
            != parsed.skip(1)[i - 1].0@ by {
            assert(parsed.skip(1)[j] == parsed[j + 1]);
            assert(parsed.skip(1)[i - 1] == parsed[i]);
        }
        lemma_schema_keeps_submitted_tables(t2, parsed.skip(1), i - 1);
        assert(parsed.skip(1)[i - 1] == parsed[i]);
    }
}

/// Folding a batch in touches no table whose name is not in the batch.
pub proof fn lemma_overlay_keeps_others(
    tables: Map<Seq<char>, String>,
    parsed: Seq<(String, String)>,
    name: Seq<char>,
)
    requires
        forall|j: int| 0 <= j < parsed.len() ==> (#[trigger] parsed[j]).0@ != name,
    ensures
        overlay(tables, parsed).contains_key(name) == tables.contains_key(name),
        tables.contains_key(name) ==> overlay(tables, parsed)[name] == tables[name],
    decreases parsed.len(),
{
    if parsed.len() == 0 {
    } else {
        assert(parsed[0].0@ != name);
        let t2 = tables.insert(parsed[0].0@, parsed[0].1);
        assert forall|j: int|
            0 <= j < parsed.skip(1).len() implies (#[trigger] parsed.skip(1)[j]).0@ != name by {
            assert(parsed.skip(1)[j] == parsed[j + 1]);
        }
        lemma_overlay_keeps_others(t2, parsed.skip(1), name);
    }
}

/// The DDL statements of a schema request joined into one script, separated
/// by `;`, ready for the host's parser.
pub open spec fn joined_sql(statements: Seq<String>) -> Seq<char>
    decreases statements.len(),
{
    if statements.len() == 0 {
        Seq::empty()
    } else if statements.len() == 1 {
        statements[0]@
    } else {
        statements[0]@ + seq![';'] + joined_sql(statements.skip(1))
    }
}

/// Joins the submitted DDL statements into one `;`-separated script.
#[verifier::loop_isolation(false)]
pub fn join_statements(statements: &Vec<String>) -> (r: String)
    ensures
        r@ == joined_sql(statements@),
{
    let mut r = String::new();
    let mut i: usize = 0;
    proof {
        reveal_strlit(";");
        assert(";"@ =~= seq![';']);
    }
    while i < statements.len()
        invariant
            0 <= i <= statements@.len(),
            i == 0 ==> r@ == Seq::<char>::empty(),
            1 <= i < statements@.len() ==> joined_sql(statements@) == r@ + seq![';'] + joined_sql(
                statements@.skip(i as int),
            ),
            i == statements@.len() ==> r@ == joined_sql(statements@),
        decreases statements@.len() - i,
    {
        let ghost rest = statements@.skip(i as int);
        proof {
            assert(rest[0] == statements@[i as int]);
            assert(rest.skip(1) =~= statements@.skip(i as int + 1));
        }
        if i > 0 {
            r.append(";");
        }
        r.append(statements[i].as_str());
        proof {
            if i == 0 {
                assert(statements@ =~= rest);
            } else if i + 1 < statements@.len() {
                assert(r@ + seq![';'] + joined_sql(statements@.skip(i as int + 1)) =~= joined_sql(
                    statements@,
                ));
            }
        }
        i = i + 1;
    }
    r
}

/// The schema endpoint's response for a non-empty batch: `200` with no
/// per-statement results and the elapsed time (nanoseconds) when the merge
/// succeeded, `500` with the merge error otherwise.
pub fn schema_response(outcome: Result<u64, String>) -> (r: (u16, RqliteResponse))
    ensures
        match outcome {
            Result::Ok(elapsed) => {
                &&& r.0 == HTTP_OK
                &&& r.1.results@.len() == 0
                &&& r.1.time == Some(elapsed)
            },
            Result::Err(error) => {
                &&& r.0 == HTTP_INTERNAL_SERVER_ERROR
                &&& r.1.results@.len() == 1
                &&& r.1.results@[0] == (RqliteResult::Error { error })
                &&& r.1.time is None
            },
        },
{
    match outcome {
        Result::Ok(elapsed) => (
            HTTP_OK,
            RqliteResponse { results: Vec::new(), time: Some(elapsed) },
        ),
        Result::Err(error) => (
            HTTP_INTERNAL_SERVER_ERROR,
            RqliteResponse { results: vec![RqliteResult::Error { error }], time: None },
        ),
    }
}

} // verus!
