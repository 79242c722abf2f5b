//! Table names, their aliases, and the selectors that a record lookup accepts.
use vstd::prelude::*;
use vstd::string::*;

use crate::text::{
    chars_of, has_prefix, is_hex, is_letter, is_white_space, lemma_lower_idempotent,
    lemma_trim_keeps, lemma_trim_stretch, lower, lower_char, lower_text, name_listed, names_of, same, slice_string,
    starts_with_text, trim, trim_text, upper, upper_text,
};

verus! {

pub const BUSINESS_APPLICATION_TABLE: &'static str = "cmdb_ci_business_app";

pub const SERVER_TABLE: &'static str = "cmdb_ci_server";

/// What kind of record a table holds.
#[derive(Clone, Copy, Debug, PartialEq, Eq, Structural)]
pub enum ResourceType {
    Incident,
    Change,
    ChangeTask,
    Task,
    ScrumTask,
    Story,
    Project,
    Demand,
    DemandTask,
    ResourcePlan,
    Knowledge,
    BusinessApplication,
    Server,
    Unknown,
}

pub open spec fn underscored_char(c: char) -> char {
    if c == ' ' || c == '-' {
        '_'
    } else {
        c
    }
}

pub open spec fn underscored(s: Seq<char>) -> Seq<char> {
    s.map_values(|c: char| underscored_char(c))
}

/// A table name in its usual spelling: trimmed, in small letters, with
/// underscores for blanks and hyphens.
pub open spec fn table_name(s: Seq<char>) -> Seq<char> {
    underscored(lower(trim(s)))
}

pub fn underscored_text(s: &str) -> (r: String)
    ensures
        r@ == underscored(s@),
{
    let v: Vec<char> = chars_of(s);
    let mut out: String = String::new();
    let mut i: usize = 0;
    while i < v.len()
        invariant
            i <= v@.len(),
            out@ == underscored(v@).subrange(0, i as int),
        decreases v@.len() - i,
    {
        let c: char = v[i];
        if c == ' ' || c == '-' {
            out.push('_');
        } else {
            out.push(c);
        }
        i += 1;
        assert(out@ =~= underscored(v@).subrange(0, i as int));
    }
    assert(out@ =~= underscored(v@));
    out
}

pub fn normalize_table_name(table: &str) -> (r: String)
    ensures
        r@ == table_name(table@),
{
    let trimmed: String = trim_text(table);
    let lowered: String = lower_text(trimmed.as_str());
    underscored_text(lowered.as_str())
}

/// A normalized table name is its own normalization.
pub proof fn table_names_are_normal(s: Seq<char>)
    ensures
        table_name(table_name(s)) == table_name(s),
{
    let t = trim(s);
    let n = table_name(s);
    let r = lemma_trim_stretch(s);
    if n.len() > 0 {
        assert(t[0] == s[r.0]);
        assert(t.last() == s[r.1 - 1]);
        lemma_name_char(t[0]);
        lemma_name_char(t.last());
        assert(n[0] == underscored_char(lower_char(t[0])));
        assert(n.last() == underscored_char(lower_char(t.last())));
    }
    lemma_trim_keeps(n);
    assert forall|i: int| 0 <= i < n.len() implies #[trigger] underscored(lower(n))[i]
        == n[i] by {
        lemma_name_char(t[i]);
    }
    assert(underscored(lower(n)) =~= n);
}

proof fn lemma_name_char(c: char)
    ensures
        !is_white_space(c) ==> !is_white_space(underscored_char(lower_char(c))),
        underscored_char(lower_char(underscored_char(lower_char(c)))) == underscored_char(
            lower_char(c),
        ),
{
    if 'A' <= c <= 'Z' {
        let d = ((c as u32 + 32) as u32) as char;
        assert(d as u32 == c as u32 + 32);
    }
}

pub open spec fn is_business_application_name(n: Seq<char>) -> bool {
    ||| n == "business_application"@
    ||| n == "business_app"@
    ||| n == "cmdb_ci_business_app"@
}

/// The table that a normalized server alias stands for.
pub open spec fn server_table(n: Seq<char>) -> Option<Seq<char>> {
    if n == "server"@ || n == "servers"@ || n == "cmdb_ci_server"@ {
        Some("cmdb_ci_server"@)
    } else if n == "linux_server"@ || n == "cmdb_ci_linux_server"@ {
        Some("cmdb_ci_linux_server"@)
    } else if n == "windows_server"@ || n == "cmdb_ci_win_server"@ {
        Some("cmdb_ci_win_server"@)
    } else {
        None
    }
}

pub open spec fn is_change_request_name(n: Seq<char>) -> bool {
    ||| n == "change"@
    ||| n == "change_request"@
    ||| n == "normal_change"@
    ||| n == "standard_change"@
    ||| n == "emergency_change"@
    ||| has_prefix(n, "change_request_"@)
}

pub fn is_business_application_alias(table: &str) -> (r: bool)
    ensures
        r == is_business_application_name(table_name(table@)),
{
    let n: String = normalize_table_name(table);
    let s: &str = n.as_str();
    same(s, "business_application") || same(s, "business_app") || same(s, "cmdb_ci_business_app")
}

/// The table that a server alias stands for.
pub fn canonical_server_table_alias(table: &str) -> (r: Option<&'static str>)
    ensures
        match r {
            Some(t) => server_table(table_name(table@)) == Some(t@),
            None => server_table(table_name(table@)) is None,
        },
{
    let n: String = normalize_table_name(table);
    let s: &str = n.as_str();
    if same(s, "server") || same(s, "servers") || same(s, "cmdb_ci_server") {
        Some("cmdb_ci_server")
    } else if same(s, "linux_server") || same(s, "cmdb_ci_linux_server") {
        Some("cmdb_ci_linux_server")
    } else if same(s, "windows_server") || same(s, "cmdb_ci_win_server") {
        Some("cmdb_ci_win_server")
    } else {
        None
    }
}

/// Whether a normalized table name is that of the change requests or of one of
/// their subclasses.
pub fn is_change_request_table(normalized: &str) -> (r: bool)
    ensures
        r == is_change_request_name(normalized@),
{
    same(normalized, "change") || same(normalized, "change_request") || same(
        normalized,
        "normal_change",
    ) || same(normalized, "standard_change") || same(normalized, "emergency_change")
        || starts_with_text(normalized, "change_request_")
}

pub open spec fn is_change_number(number: Seq<char>) -> bool {
    has_prefix(upper(trim(number)), "CHG"@)
}

pub fn is_change_request_number(number: &str) -> (r: bool)
    ensures
        r == is_change_number(number@),
{
    let trimmed: String = trim_text(number);
    let raised: String = upper_text(trimmed.as_str());
    starts_with_text(raised.as_str(), "CHG")
}

/// The table under which records of `table` are kept.
pub open spec fn record_table(table: Seq<char>) -> Seq<char> {
    let n = table_name(table);
    if is_business_application_name(n) {
        "cmdb_ci_business_app"@
    } else {
        match server_table(n) {
            Some(t) => t,
            None => if is_change_request_name(n) {
                "change_request"@
            } else {
                n
            },
        }
    }
}

pub fn canonical_record_table(table: &str) -> (r: String)
    ensures
        r@ == record_table(table@),
{
    let normalized: String = normalize_table_name(table);
    if is_business_application_alias(table) {
        return BUSINESS_APPLICATION_TABLE.to_owned();
    }
    match canonical_server_table_alias(table) {
        Some(server) => server.to_owned(),
        None => {
            if is_change_request_table(normalized.as_str()) {
                "change_request".to_owned()
            } else {
                normalized
            }
        },
    }
}

/// The table of a record, where its number may settle that it is a change.
pub open spec fn record_table_for_number(table: Seq<char>, number: Seq<char>) -> Seq<char> {
    let n = table_name(table);
    if is_business_application_name(n) {
        "cmdb_ci_business_app"@
    } else if is_change_request_name(n) || is_change_number(number) {
        "change_request"@
    } else {
        n
    }
}

pub fn canonical_record_table_for_number(table: &str, number: &str) -> (r: String)
    ensures
        r@ == record_table_for_number(table@, number@),
{
    let normalized: String = normalize_table_name(table);
    if is_business_application_alias(table) {
        BUSINESS_APPLICATION_TABLE.to_owned()
    } else if is_change_request_table(normalized.as_str()) || is_change_request_number(number) {
        "change_request".to_owned()
    } else {
        normalized
    }
}

/// A sys_id: 32 hexadecimal digits, in small letters or in capitals.
pub open spec fn is_sys_id(s: Seq<char>) -> bool {
    s.len() == 32 && forall|i: int| 0 <= i < s.len() ==> is_hex(#[trigger] s[i])
}

/// The normal spelling of a sys_id, where the text is one.
pub open spec fn sys_id_of(s: Seq<char>) -> Option<Seq<char>> {
    if is_sys_id(lower(trim(s))) {
        Some(lower(trim(s)))
    } else {
        None
    }
}

fn all_hex(v: &Vec<char>) -> (r: bool)
    ensures
        r == forall|i: int| 0 <= i < v@.len() ==> is_hex(#[trigger] v@[i]),
{
    let mut i: usize = 0;
    while i < v.len()
        invariant
            i <= v@.len(),
            forall|j: int| 0 <= j < i ==> is_hex(#[trigger] v@[j]),
        decreases v@.len() - i,
    {
        let c: char = v[i];
        if !(('0' <= c && c <= '9') || ('a' <= c && c <= 'f') || ('A' <= c && c <= 'F')) {
            assert(!is_hex(v@[i as int]));
            return false;
        }
        i += 1;
    }
    true
}

pub open spec fn bad_sys_id() -> Seq<char> {
    "sys_id must be exactly 32 ASCII hex characters"@
}

/// The normal spelling of a sys_id; anything else is refused.
pub fn normalize_record_lookup_sys_id(sys_id: &str) -> (r: Result<String, String>)
    ensures
        match r {
            Ok(id) => sys_id_of(sys_id@) == Some(id@),
            Err(message) => sys_id_of(sys_id@) is None && message@ == bad_sys_id(),
        },
{
    let trimmed: String = trim_text(sys_id);
    let normalized: String = lower_text(trimmed.as_str());
    let v: Vec<char> = chars_of(normalized.as_str());
    if v.len() == 32 && all_hex(&v) {
        Ok(normalized)
    } else {
        Err("sys_id must be exactly 32 ASCII hex characters".to_owned())
    }
}

/// A normalized sys_id is its own normalization, and holds no capitals.
pub proof fn sys_ids_are_normal(s: Seq<char>)
    requires
        sys_id_of(s) is Some,
    ensures
        sys_id_of(sys_id_of(s)->0) == sys_id_of(s),
        lower(sys_id_of(s)->0) == sys_id_of(s)->0,
{
    let id = sys_id_of(s)->0;
    assert(is_hex(id[0]));
    assert(is_hex(id.last()));
    lemma_trim_keeps(id);
    lemma_lower_idempotent(trim(s));
}

/// The table names that a record lookup accepts.
pub const RECORD_LOOKUP_ALLOWED_TABLES: [&'static str; 13] = [
    "dmn_demand",
    "dmn_demand_task",
    "resource_plan",
    "pm_project",
    "change_request",
    "business_application",
    "business_app",
    "cmdb_ci_business_app",
    "server",
    "cmdb_ci_server",
    "cmdb_ci_linux_server",
    "cmdb_ci_win_server",
    "vtb_task",
];

pub open spec fn is_lookup_table(table: Seq<char>) -> bool {
    names_of(RECORD_LOOKUP_ALLOWED_TABLES@).contains(lower(trim(table))) || lower(trim(table)) == "servers"@
}

pub fn is_record_lookup_table_allowed(table: &str) -> (r: bool)
    ensures
        r == is_lookup_table(table@),
{
    let trimmed: String = trim_text(table);
    let normalized: String = lower_text(trimmed.as_str());
    name_listed(&RECORD_LOOKUP_ALLOWED_TABLES, normalized.as_str()) || same(normalized.as_str(), "servers")
}

/// The table that a record lookup on `table` reads, where the lookup is allowed.
pub open spec fn lookup_table(table: Seq<char>) -> Option<Seq<char>> {
    let n = table_name(table);
    if is_business_application_name(n) {
        Some("cmdb_ci_business_app"@)
    } else if server_table(n) is Some {
        server_table(n)
    } else if is_lookup_table(n) {
        Some(n)
    } else {
        None
    }
}

pub open spec fn lookup_refusal(table: Seq<char>) -> Seq<char> {
    "table `"@ + trim(table) + "` is not allowed for record lookup"@
}

pub fn normalize_record_lookup_table(table: &str) -> (r: Result<String, String>)
    ensures
        match r {
            Ok(t) => lookup_table(table@) == Some(t@),
            Err(message) => lookup_table(table@) is None && message@ == lookup_refusal(table@),
        },
{
    let normalized: String = normalize_table_name(table);
    if is_business_application_alias(table) {
        return Ok(BUSINESS_APPLICATION_TABLE.to_owned());
    }
    if let Some(server) = canonical_server_table_alias(table) {
        return Ok(server.to_owned());
    }
    if is_record_lookup_table_allowed(normalized.as_str()) {
        Ok(normalized)
    } else {
        let mut message: String = "table `".to_owned();
        let trimmed: String = trim_text(table);
        message.append(trimmed.as_str());
        message.append("` is not allowed for record lookup");
        Err(message)
    }
}

/// A canonical table name is a fixed point: normalizing it again, or looking it
/// up again, gives the same table.
pub proof fn lookup_tables_are_canonical(table: Seq<char>)
    requires
        lookup_table(table) is Some,
    ensures
        lookup_table(lookup_table(table)->0) == lookup_table(table),
{
    let n = table_name(table);
    table_names_are_normal(table);
    lemma_literal_names();
    if !is_business_application_name(n) && server_table(n) is None {
        assert(lookup_table(table)->0 == n);
    }
}

/// The table under which records are kept is kept under itself.
pub proof fn record_tables_are_canonical(table: Seq<char>)
    ensures
        record_table(record_table(table)) == record_table(table),
{
    table_names_are_normal(table);
    lemma_literal_names();
    assert(table_name("change_request"@) == "change_request"@) by {
        reveal_strlit("change_request");
        lemma_plain_name("change_request"@);
    }
    lemma_names_apart();
}

/// A name made of small letters, digits and underscores is normal.
pub proof fn lemma_plain_name(s: Seq<char>)
    requires
        forall|i: int| 0 <= i < s.len() ==> ('a' <= #[trigger] s[i] <= 'z' || s[i] == '_' || '0'
            <= s[i] <= '9'),
    ensures
        table_name(s) == s,
        trim(s) == s,
        lower(s) == s,
{
    if s.len() > 0 {
        assert('a' <= s[0] <= 'z' || s[0] == '_' || '0' <= s[0] <= '9');
        assert('a' <= s[s.len() - 1] <= 'z' || s[s.len() - 1] == '_' || '0' <= s[s.len() - 1]
            <= '9');
    }
    lemma_trim_keeps(s);
    assert(lower(s) =~= s);
    assert(underscored(s) =~= s);
}

proof fn lemma_literal_names()
    ensures
        table_name("cmdb_ci_business_app"@) == "cmdb_ci_business_app"@,
        table_name("cmdb_ci_server"@) == "cmdb_ci_server"@,
        table_name("cmdb_ci_linux_server"@) == "cmdb_ci_linux_server"@,
        table_name("cmdb_ci_win_server"@) == "cmdb_ci_win_server"@,
        !is_business_application_name("cmdb_ci_server"@),
        !is_business_application_name("cmdb_ci_linux_server"@),
        !is_business_application_name("cmdb_ci_win_server"@),
        server_table("cmdb_ci_server"@) == Some("cmdb_ci_server"@),
        server_table("cmdb_ci_linux_server"@) == Some("cmdb_ci_linux_server"@),
        server_table("cmdb_ci_win_server"@) == Some("cmdb_ci_win_server"@),
{
    reveal_strlit("cmdb_ci_business_app");
    reveal_strlit("cmdb_ci_server");
    reveal_strlit("cmdb_ci_linux_server");
    reveal_strlit("cmdb_ci_win_server");
    reveal_strlit("business_application");
    reveal_strlit("business_app");
    reveal_strlit("server");
    reveal_strlit("servers");
    reveal_strlit("linux_server");
    reveal_strlit("windows_server");
    lemma_plain_name("cmdb_ci_business_app"@);
    lemma_plain_name("cmdb_ci_server"@);
    lemma_plain_name("cmdb_ci_linux_server"@);
    lemma_plain_name("cmdb_ci_win_server"@);
    assert("cmdb_ci_win_server"@[8] == 'w');
    assert("windows_server"@[0] == 'w');
    assert("linux_server"@[0] == 'l');
}

proof fn lemma_names_apart()
    ensures
        !is_business_application_name("change_request"@),
        server_table("change_request"@) is None,
{
    reveal_strlit("change_request");
    reveal_strlit("business_application");
    reveal_strlit("business_app");
    reveal_strlit("cmdb_ci_business_app");
    reveal_strlit("server");
    reveal_strlit("servers");
    reveal_strlit("cmdb_ci_server");
    reveal_strlit("linux_server");
    reveal_strlit("cmdb_ci_linux_server");
    reveal_strlit("windows_server");
    reveal_strlit("cmdb_ci_win_server");
    assert("change_request"@[1] == 'h');
    assert("linux_server"@[1] == 'i');
    assert("windows_server"@[1] == 'i');
}

/// How many letters a text begins with.
pub open spec fn leading_letters(s: Seq<char>) -> nat
    decreases s.len(),
{
    if s.len() > 0 && is_letter(s[0]) {
        1 + leading_letters(s.subrange(1, s.len() as int))
    } else {
        0
    }
}

/// The letters that a record number begins with, in capitals.
pub open spec fn number_prefix(number: Seq<char>) -> Option<Seq<char>> {
    let t = trim(number);
    let n = leading_letters(t) as int;
    if n == 0 {
        None
    } else {
        Some(upper(t.subrange(0, n)))
    }
}

proof fn lemma_leading_letters(s: Seq<char>, k: int)
    requires
        0 <= k <= s.len(),
        forall|i: int| 0 <= i < k ==> is_letter(#[trigger] s[i]),
        k < s.len() ==> !is_letter(s[k]),
    ensures
        leading_letters(s) == k,
    decreases s.len(),
{
    if k > 0 {
        let t = s.subrange(1, s.len() as int);
        assert forall|i: int| 0 <= i < k - 1 implies is_letter(#[trigger] t[i]) by {
            assert(t[i] == s[i + 1]);
        }
        lemma_leading_letters(t, k - 1);
    }
}

pub fn record_number_prefix(number: &str) -> (r: Option<String>)
    ensures
        match r {
            Some(p) => number_prefix(number@) == Some(p@),
            None => number_prefix(number@) is None,
        },
{
    let trimmed: String = trim_text(number);
    let v: Vec<char> = chars_of(trimmed.as_str());
    let mut n: usize = 0;
    while n < v.len() && (('a' <= v[n] && v[n] <= 'z') || ('A' <= v[n] && v[n] <= 'Z'))
        invariant
            n <= v@.len(),
            forall|i: int| 0 <= i < n ==> is_letter(#[trigger] v@[i]),
        decreases v@.len() - n,
    {
        n += 1;
    }
    proof {
        lemma_leading_letters(v@, n as int);
    }
    if n == 0 {
        None
    } else {
        let prefix: String = slice_string(&v, 0, n);
        Some(upper_text(prefix.as_str()))
    }
}

/// The table of the built-in number prefixes.
pub fn table_for_builtin_record_number(number: &str) -> (r: Option<&'static str>)
    ensures
        match r {
            Some(t) => number_prefix(number@) == Some("DMNTSK"@) && t@ == "dmn_demand_task"@,
            None => number_prefix(number@) != Some("DMNTSK"@),
        },
{
    match record_number_prefix(number) {
        Some(prefix) => if same(prefix.as_str(), "DMNTSK") {
            Some("dmn_demand_task")
        } else {
            None
        },
        None => None,
    }
}

/// The tables whose records a resource plan can belong to, by number prefix.
pub open spec fn plan_parent_table(number: Seq<char>) -> Option<Seq<char>> {
    if number_prefix(number) == Some("DMND"@) {
        Some("dmn_demand"@)
    } else if number_prefix(number) == Some("PRJ"@) {
        Some("pm_project"@)
    } else {
        None
    }
}

pub fn resource_plan_parent_table_for_number(number: &str) -> (r: Option<&'static str>)
    ensures
        match r {
            Some(t) => plan_parent_table(number@) == Some(t@),
            None => plan_parent_table(number@) is None,
        },
{
    match record_number_prefix(number) {
        Some(prefix) => if same(prefix.as_str(), "DMND") {
            Some("dmn_demand")
        } else if same(prefix.as_str(), "PRJ") {
            Some("pm_project")
        } else {
            None
        },
        None => None,
    }
}

pub open spec fn resource_type_of(table: Seq<char>) -> ResourceType {
    let n = table_name(table);
    if is_business_application_name(n) {
        ResourceType::BusinessApplication
    } else if server_table(n) is Some {
        ResourceType::Server
    } else if is_change_request_name(n) {
        ResourceType::Change
    } else if n == "incident"@ {
        ResourceType::Incident
    } else if n == "change_task"@ {
        ResourceType::ChangeTask
    } else if n == "task"@ {
        ResourceType::Task
    } else if n == "rm_scrum_task"@ {
        ResourceType::ScrumTask
    } else if n == "rm_story"@ {
        ResourceType::Story
    } else if n == "pm_project"@ {
        ResourceType::Project
    } else if n == "dmn_demand"@ {
        ResourceType::Demand
    } else if n == "dmn_demand_task"@ {
        ResourceType::DemandTask
    } else if n == "resource_plan"@ {
        ResourceType::ResourcePlan
    } else if n == "kb_knowledge"@ {
        ResourceType::Knowledge
    } else {
        ResourceType::Unknown
    }
}

impl ResourceType {
    /// The kind of record that a table holds.
    pub fn from_table(table: &str) -> (r: ResourceType)
        ensures
            r == resource_type_of(table@),
    {
        let n: String = normalize_table_name(table);
        let s: &str = n.as_str();
        if is_business_application_alias(table) {
            ResourceType::BusinessApplication
        } else if canonical_server_table_alias(table).is_some() {
            ResourceType::Server
        } else if is_change_request_table(s) {
            ResourceType::Change
        } else if same(s, "incident") {
            ResourceType::Incident
        } else if same(s, "change_task") {
            ResourceType::ChangeTask
        } else if same(s, "task") {
            ResourceType::Task
        } else if same(s, "rm_scrum_task") {
            ResourceType::ScrumTask
        } else if same(s, "rm_story") {
            ResourceType::Story
        } else if same(s, "pm_project") {
            ResourceType::Project
        } else if same(s, "dmn_demand") {
            ResourceType::Demand
        } else if same(s, "dmn_demand_task") {
            ResourceType::DemandTask
        } else if same(s, "resource_plan") {
            ResourceType::ResourcePlan
        } else if same(s, "kb_knowledge") {
            ResourceType::Knowledge
        } else {
            ResourceType::Unknown
        }
    }
}

} // verus!
