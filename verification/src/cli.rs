//! Argument dispatch: deciding which operation a command line asks for,
//! and validating the table name handed to the preview mode.

use vstd::prelude::*;

verus! {

/// Why a command line was rejected before any database work.
#[derive(Clone, Copy, Debug, PartialEq, Eq, Structural)]
pub enum UsageError {
    MissingMode,
    MissingConn,
    MissingQuery,
    MissingTable,
    InvalidTableName,
}

/// The operation a command line asks for, with everything the caller
/// needs to run it: the connection string and, for the query modes,
/// the exact SQL text to execute.
#[derive(Debug)]
pub enum Plan {
    Exec { conn: String, sql: String },
    Preview { conn: String, query: String },
    Schema { conn: String },
}

/// Mathematical form of a `Plan`: every string as its character sequence.
pub enum PlanSpec {
    Exec { conn: Seq<char>, sql: Seq<char> },
    Preview { conn: Seq<char>, query: Seq<char> },
    Schema { conn: Seq<char> },
}

impl View for Plan {
    type V = PlanSpec;

    open spec fn view(&self) -> PlanSpec {
        match self {
            Plan::Exec { conn, sql } => PlanSpec::Exec { conn: conn@, sql: sql@ },
            Plan::Preview { conn, query } => PlanSpec::Preview { conn: conn@, query: query@ },
            Plan::Schema { conn } => PlanSpec::Schema { conn: conn@ },
        }
    }
}

/// A character allowed in a previewed table name: ASCII letters,
/// digits, and underscore.
pub open spec fn valid_name_char(c: char) -> bool {
    let x = c as u32;
    (48 <= x && x <= 57) || (65 <= x && x <= 90) || (97 <= x && x <= 122) || x == 95
}

/// A table name is valid when every character of it is.
pub open spec fn valid_table_seq(s: Seq<char>) -> bool {
    forall|i: int| 0 <= i < s.len() ==> valid_name_char(s[i])
}

/// A table name containing a space, a double quote, a single quote, or a
/// semicolon is never valid, so it is rejected before any query is issued.
pub proof fn lemma_dangerous_chars_rejected(s: Seq<char>)
    requires
        s.contains(' ') || s.contains('"') || s.contains('\'') || s.contains(';'),
    ensures
        !valid_table_seq(s),
{
    if s.contains(' ') {
        let i = choose|i: int| 0 <= i < s.len() && s[i] == ' ';
        assert(!valid_name_char(s[i]));
    } else if s.contains('"') {
        let i = choose|i: int| 0 <= i < s.len() && s[i] == '"';
        assert(!valid_name_char(s[i]));
    } else if s.contains('\'') {
        let i = choose|i: int| 0 <= i < s.len() && s[i] == '\'';
        assert(!valid_name_char(s[i]));
    } else {
        let i = choose|i: int| 0 <= i < s.len() && s[i] == ';';
        assert(!valid_name_char(s[i]));
    }
}

fn valid_name_char_exec(c: char) -> (r: bool)
    ensures
        r == valid_name_char(c),
{
    let x = c as u32;
    (48 <= x && x <= 57) || (65 <= x && x <= 90) || (97 <= x && x <= 122) || x == 95
}

/// Checks every character of a candidate table name against the allowed class.
pub fn valid_table_name(s: &str) -> (r: bool)
    ensures
        r == valid_table_seq(s@),
{
    let n = s.unicode_len();
    let mut i: usize = 0;
    while i < n
        invariant
            n == s@.len(),
            i <= n,
            forall|j: int| 0 <= j < i ==> valid_name_char(s@[j]),
        decreases n - i,
    {
        if !valid_name_char_exec(s.get_char(i)) {
            return false;
        }
        i += 1;
    }
    true
}

/// The SQL text the preview mode runs for a validated table name.
pub open spec fn preview_sql(table: Seq<char>) -> Seq<char> {
    "SELECT * FROM \""@ + table + "\" LIMIT 5"@
}

/// Builds the preview statement for a table name.
pub fn build_preview_sql(table: &str) -> (r: String)
    ensures
        r@ == preview_sql(table@),
{
    let mut q = String::from_str("SELECT * FROM \"");
    q.append(table);
    q.append("\" LIMIT 5");
    q
}

/// What `plan` decides for a given command line, every string as its
/// character sequence. The first argument is the program name; the mode
/// comes second, the connection string third. A previewed table name must
/// be one or more characters of the allowed class: the empty name is
/// rejected like an invalid one.
pub open spec fn spec_plan(a: Seq<Seq<char>>) -> Result<PlanSpec, UsageError> {
    if a.len() < 2 {
        Err(UsageError::MissingMode)
    } else if a.len() < 3 {
        Err(UsageError::MissingConn)
    } else if a[1] == "exec"@ {
        if a.len() < 4 {
            Err(UsageError::MissingQuery)
        } else {
            Ok(PlanSpec::Exec { conn: a[2], sql: a[3] })
        }
    } else if a[1] == "preview"@ {
        if a.len() < 4 {
            Err(UsageError::MissingTable)
        } else if a[3].len() == 0 || !valid_table_seq(a[3]) {
            Err(UsageError::InvalidTableName)
        } else {
            Ok(PlanSpec::Preview { conn: a[2], query: preview_sql(a[3]) })
        }
    } else {
        Ok(PlanSpec::Schema { conn: a[2] })
    }
}

/// The view of a planning result: `Ok` plans by their view, errors as they are.
pub open spec fn plan_result_view(r: Result<Plan, UsageError>) -> Result<PlanSpec, UsageError> {
    match r {
        Ok(p) => Ok(p@),
        Err(e) => Err(e),
    }
}

/// Compares two string slices by their character sequences.
pub(crate) fn str_eq(a: &str, b: &str) -> (r: bool)
    ensures
        r == (a@ == b@),
{
    let x: String = a.to_owned();
    let y: String = b.to_owned();
    x == y
}

/// Decides which operation the command line asks for, or which usage
/// error to report. Issues no query itself: an invalid table name in
/// preview mode is rejected here, before any database work.
pub fn plan(args: &Vec<String>) -> (r: Result<Plan, UsageError>)
    ensures
        plan_result_view(r) == spec_plan(args@.map_values(|s: String| s@)),
{
    let ghost a = args@.map_values(|s: String| s@);
    if args.len() < 2 {
        return Err(UsageError::MissingMode);
    }
    if args.len() < 3 {
        return Err(UsageError::MissingConn);
    }
    let mode: &String = &args[1];
    let conn: &String = &args[2];
    if str_eq(mode.as_str(), "exec") {
        if args.len() < 4 {
            return Err(UsageError::MissingQuery);
        }
        let sql: &String = &args[3];
        return Ok(Plan::Exec { conn: conn.clone(), sql: sql.clone() });
    }
    if str_eq(mode.as_str(), "preview") {
        if args.len() < 4 {
            return Err(UsageError::MissingTable);
        }
        let table: &String = &args[3];
        if table.as_str().is_empty() || !valid_table_name(table.as_str()) {
            return Err(UsageError::InvalidTableName);
        }
        return Ok(Plan::Preview { conn: conn.clone(), query: build_preview_sql(table.as_str()) });
    }
    Ok(Plan::Schema { conn: conn.clone() })
}

impl UsageError {
    /// The single-line message reported for this usage error.
    pub fn message(&self) -> (r: String)
        ensures
            *self == UsageError::MissingMode ==> r@ == "Usage: engine <mode> <conn> [args...]"@,
            *self == UsageError::MissingConn ==> r@ == "Missing connection string"@,
            *self == UsageError::MissingQuery ==> r@ == "Missing SQL query"@,
            *self == UsageError::MissingTable ==> r@ == "Missing table name"@,
            *self == UsageError::InvalidTableName ==> r@ == "Invalid table name"@,
    {
        match self {
            UsageError::MissingMode => String::from_str("Usage: engine <mode> <conn> [args...]"),
            UsageError::MissingConn => String::from_str("Missing connection string"),
            UsageError::MissingQuery => String::from_str("Missing SQL query"),
            UsageError::MissingTable => String::from_str("Missing table name"),
            UsageError::InvalidTableName => String::from_str("Invalid table name"),
        }
    }
}

} // verus!
