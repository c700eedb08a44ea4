//! One row of the log, and the tab-separated line that carries it.

use crate::text::{
    decimal, decimal_string, is_plain, is_unbroken, join, join_strings, lacks,
    lemma_decimal_plain, lemma_join_one_line, lemma_plain_unbroken,
};
use crate::vocabulary::StatementKind;
use vstd::prelude::*;
use vstd::string::*;

verus! {

/// How many fields a line has.
pub const FIELD_COUNT: usize = 16;

/// One executed statement as the log records it.
#[derive(Debug)]
pub struct SyntheticSqlRecord {
    /// Identity of the connection.
    pub conn_hash: String,
    /// Which statement of the connection was executed.
    pub stmt_id: usize,
    /// Which execution of the statement this was.
    pub exec_id: usize,
    /// When it was executed, as `YYYY-MM-DD HH:MM:SS`.
    pub exec_time: String,
    /// The kind of statement.
    pub sql_type: StatementKind,
    /// How the execution ended.
    pub exe_status: String,
    /// Address of the database.
    pub db_ip: String,
    /// Address of the client.
    pub client_ip: String,
    /// Host name of the client.
    pub client_host: String,
    /// The client application.
    pub app_name: String,
    /// The database user.
    pub db_user: String,
    /// Hash of the statement's shape.
    pub sql_hash: String,
    /// The table that the statement names.
    pub from_tbs: String,
    /// The columns that a `SELECT` lists; `N/A` for any other kind.
    pub select_cols: String,
    /// The statement.
    pub sql_stmt: String,
    /// The literals of the statement's `WHERE` clause.
    pub stmt_bind_vars: String,
}

/// The names of the fields, in the order of a line.
pub open spec fn header_fields() -> Seq<Seq<char>> {
    seq![
        "conn_hash"@,
        "stmt_id"@,
        "exec_id"@,
        "exec_time"@,
        "sql_type"@,
        "exe_status"@,
        "db_ip"@,
        "client_ip"@,
        "client_host"@,
        "app_name"@,
        "db_user"@,
        "sql_hash"@,
        "from_tbs"@,
        "select_cols"@,
        "sql_stmt"@,
        "stmt_bind_vars"@,
    ]
}

/// The header line: the names of the fields with a tab between each two.
pub open spec fn header_text() -> Seq<char> {
    join(header_fields(), "\t"@)
}

/// How many tabs `s` holds.
pub open spec fn tab_count(s: Seq<char>) -> nat
    decreases s.len(),
{
    if s.len() == 0 {
        0
    } else if s.last() == '\t' {
        tab_count(s.drop_last()) + 1
    } else {
        tab_count(s.drop_last())
    }
}

/// How many tab-separated fields a line has.
pub open spec fn field_count(line: Seq<char>) -> nat {
    tab_count(line) + 1
}

/// The tabs of two texts add up when one follows the other.
pub proof fn lemma_tab_count_concat(a: Seq<char>, b: Seq<char>)
    ensures
        tab_count(a + b) == tab_count(a) + tab_count(b),
    decreases b.len(),
{
    if b.len() == 0 {
        assert(a + b =~= a);
    } else {
        assert((a + b).drop_last() =~= a + b.drop_last());
        lemma_tab_count_concat(a, b.drop_last());
    }
}

/// A text that lacks the tab holds no tab.
pub proof fn lemma_tab_count_none(s: Seq<char>)
    requires
        lacks(s, '\t'),
    ensures
        tab_count(s) == 0,
    decreases s.len(),
{
    if s.len() > 0 {
        lemma_tab_count_none(s.drop_last());
    }
}

/// Fields that hold no tab, joined with tabs, give a line with as many
/// fields.
pub proof fn lemma_joined_field_count(fields: Seq<Seq<char>>)
    requires
        fields.len() >= 1,
        forall|i: int| 0 <= i < fields.len() ==> lacks(#[trigger] fields[i], '\t'),
    ensures
        field_count(join(fields, "\t"@)) == fields.len(),
    decreases fields.len(),
{
    reveal_strlit("\t");
    let tab = "\t"@;
    assert(tab_count(tab) == 1) by {
        assert(tab.drop_last() =~= Seq::<char>::empty());
        assert(tab_count(tab.drop_last()) == 0);
    }
    if fields.len() == 1 {
        lemma_tab_count_none(fields[0]);
    } else {
        let front = fields.drop_last();
        assert forall|i: int| 0 <= i < front.len() implies lacks(#[trigger] front[i], '\t') by {
            assert(front[i] == fields[i]);
        }
        lemma_joined_field_count(front);
        lemma_tab_count_none(fields.last());
        lemma_tab_count_concat(join(front, tab), tab);
        lemma_tab_count_concat(join(front, tab) + tab, fields.last());
    }
}

/// The header line has `FIELD_COUNT` fields.
pub proof fn lemma_header_field_count()
    ensures
        field_count(header_text()) == FIELD_COUNT,
{
    reveal_strlit("conn_hash");
    reveal_strlit("stmt_id");
    reveal_strlit("exec_id");
    reveal_strlit("exec_time");
    reveal_strlit("sql_type");
    reveal_strlit("exe_status");
    reveal_strlit("db_ip");
    reveal_strlit("client_ip");
    reveal_strlit("client_host");
    reveal_strlit("app_name");
    reveal_strlit("db_user");
    reveal_strlit("sql_hash");
    reveal_strlit("from_tbs");
    reveal_strlit("select_cols");
    reveal_strlit("sql_stmt");
    reveal_strlit("stmt_bind_vars");
    lemma_joined_field_count(header_fields());
}

/// The header line, without a line break.
pub fn tsv_header() -> (r: String)
    ensures
        r@ == header_text(),
{
    let mut names: Vec<String> = Vec::new();
    names.push(String::from_str("conn_hash"));
    names.push(String::from_str("stmt_id"));
    names.push(String::from_str("exec_id"));
    names.push(String::from_str("exec_time"));
    names.push(String::from_str("sql_type"));
    names.push(String::from_str("exe_status"));
    names.push(String::from_str("db_ip"));
    names.push(String::from_str("client_ip"));
    names.push(String::from_str("client_host"));
    names.push(String::from_str("app_name"));
    names.push(String::from_str("db_user"));
    names.push(String::from_str("sql_hash"));
    names.push(String::from_str("from_tbs"));
    names.push(String::from_str("select_cols"));
    names.push(String::from_str("sql_stmt"));
    names.push(String::from_str("stmt_bind_vars"));
    let r = join_strings(&names, "\t");
    assert(names@.map_values(|p: String| p@) =~= header_fields());
    r
}

impl SyntheticSqlRecord {
    /// The fields as text, in the order of a line.
    pub open spec fn fields(self) -> Seq<Seq<char>> {
        seq![
            self.conn_hash@,
            decimal(self.stmt_id as nat),
            decimal(self.exec_id as nat),
            self.exec_time@,
            self.sql_type.name_text(),
            self.exe_status@,
            self.db_ip@,
            self.client_ip@,
            self.client_host@,
            self.app_name@,
            self.db_user@,
            self.sql_hash@,
            self.from_tbs@,
            self.select_cols@,
            self.sql_stmt@,
            self.stmt_bind_vars@,
        ]
    }

    /// The line: the fields with a tab between each two, without a line
    /// break. Nothing is quoted or escaped.
    pub open spec fn line_text(self) -> Seq<char> {
        join(self.fields(), "\t"@)
    }

    /// Every text field is plain, so that none holds a tab or a line break.
    pub open spec fn is_plain(self) -> bool {
        &&& is_plain(self.conn_hash@)
        &&& is_plain(self.exec_time@)
        &&& is_plain(self.exe_status@)
        &&& is_plain(self.db_ip@)
        &&& is_plain(self.client_ip@)
        &&& is_plain(self.client_host@)
        &&& is_plain(self.app_name@)
        &&& is_plain(self.db_user@)
        &&& is_plain(self.sql_hash@)
        &&& is_plain(self.from_tbs@)
        &&& is_plain(self.select_cols@)
        &&& is_plain(self.sql_stmt@)
        &&& is_plain(self.stmt_bind_vars@)
    }

    /// The line of the record, without a line break.
    pub fn to_tsv_line(&self) -> (r: String)
        ensures
            r@ == self.line_text(),
    {
        let mut parts: Vec<String> = Vec::new();
        parts.push(self.conn_hash.clone());
        parts.push(decimal_string(self.stmt_id as u64));
        parts.push(decimal_string(self.exec_id as u64));
        parts.push(self.exec_time.clone());
        parts.push(String::from_str(self.sql_type.name()));
        parts.push(self.exe_status.clone());
        parts.push(self.db_ip.clone());
        parts.push(self.client_ip.clone());
        parts.push(self.client_host.clone());
        parts.push(self.app_name.clone());
        parts.push(self.db_user.clone());
        parts.push(self.sql_hash.clone());
        parts.push(self.from_tbs.clone());
        parts.push(self.select_cols.clone());
        parts.push(self.sql_stmt.clone());
        parts.push(self.stmt_bind_vars.clone());
        let r = join_strings(&parts, "\t");
        assert(parts@.map_values(|p: String| p@) =~= self.fields());
        r
    }

    /// No text field holds a tab or a line break.
    pub open spec fn is_unbroken(self) -> bool {
        &&& is_unbroken(self.conn_hash@)
        &&& is_unbroken(self.exec_time@)
        &&& is_unbroken(self.exe_status@)
        &&& is_unbroken(self.db_ip@)
        &&& is_unbroken(self.client_ip@)
        &&& is_unbroken(self.client_host@)
        &&& is_unbroken(self.app_name@)
        &&& is_unbroken(self.db_user@)
        &&& is_unbroken(self.sql_hash@)
        &&& is_unbroken(self.from_tbs@)
        &&& is_unbroken(self.select_cols@)
        &&& is_unbroken(self.sql_stmt@)
        &&& is_unbroken(self.stmt_bind_vars@)
    }

    /// A record whose text fields are plain holds no tab and no line break.
    pub proof fn lemma_plain_is_unbroken(self)
        requires
            self.is_plain(),
        ensures
            self.is_unbroken(),
    {
        lemma_plain_unbroken(self.conn_hash@);
        lemma_plain_unbroken(self.exec_time@);
        lemma_plain_unbroken(self.exe_status@);
        lemma_plain_unbroken(self.db_ip@);
        lemma_plain_unbroken(self.client_ip@);
        lemma_plain_unbroken(self.client_host@);
        lemma_plain_unbroken(self.app_name@);
        lemma_plain_unbroken(self.db_user@);
        lemma_plain_unbroken(self.sql_hash@);
        lemma_plain_unbroken(self.from_tbs@);
        lemma_plain_unbroken(self.select_cols@);
        lemma_plain_unbroken(self.sql_stmt@);
        lemma_plain_unbroken(self.stmt_bind_vars@);
    }

    /// The line of a record whose text fields hold no tab and no line break
    /// has `FIELD_COUNT` fields.
    pub proof fn lemma_unbroken_line_field_count(self)
        requires
            self.is_unbroken(),
        ensures
            field_count(self.line_text()) == FIELD_COUNT,
    {
        lemma_decimal_plain(self.stmt_id as nat);
        lemma_decimal_plain(self.exec_id as nat);
        lemma_plain_unbroken(decimal(self.stmt_id as nat));
        lemma_plain_unbroken(decimal(self.exec_id as nat));
        self.sql_type.lemma_name_round_trip();
        lemma_plain_unbroken(self.sql_type.name_text());
        assert forall|i: int| 0 <= i < self.fields().len() implies lacks(
            #[trigger] self.fields()[i],
            '\t',
        ) by {}
        lemma_joined_field_count(self.fields());
    }

    /// The line of a record whose text fields hold no tab and no line break
    /// holds no line break, so that it is one line of the file.
    pub proof fn lemma_unbroken_line_is_one_line(self)
        requires
            self.is_unbroken(),
        ensures
            lacks(self.line_text(), '\n'),
    {
        lemma_decimal_plain(self.stmt_id as nat);
        lemma_decimal_plain(self.exec_id as nat);
        lemma_plain_unbroken(decimal(self.stmt_id as nat));
        lemma_plain_unbroken(decimal(self.exec_id as nat));
        self.sql_type.lemma_name_round_trip();
        lemma_plain_unbroken(self.sql_type.name_text());
        reveal_strlit("\t");
        assert forall|i: int| 0 <= i < self.fields().len() implies is_unbroken(
            #[trigger] self.fields()[i],
        ) by {}
        lemma_join_one_line(self.fields(), "\t"@);
    }

    /// The line of a record whose text fields are plain has `FIELD_COUNT`
    /// fields.
    pub proof fn lemma_line_field_count(self)
        requires
            self.is_plain(),
        ensures
            field_count(self.line_text()) == FIELD_COUNT,
    {
        self.lemma_plain_is_unbroken();
        self.lemma_unbroken_line_field_count();
    }
}

} // verus!
