//! The dump itself: a configuration and the objects that were read with it.

use crate::config::DumpConfig;
use crate::objects;
use crate::objects::{
    Cast, Collation, DefaultPrivilege, EventTrigger, Extension, ForeignDataWrapper, ForeignServer,
    ForeignTable, Operator, PgEnum, PgType, Publication, Routine, Rule, Schema, Sequence, Statistic,
    Subscription, Table, TextSearchConfig, TextSearchDict, UserMapping,
};
use crate::text::{
    append_decimal, append_sql_literal, decimal, law_literal_reads_back, read_literal, sql_literal,
};
use crate::queries::occurs_in;
use vstd::prelude::*;

verus! {

/// The objects of a database, as they were read from its catalog.
#[derive(Debug, Clone, PartialEq, Eq)]
pub struct Dump {
    pub configuration: DumpConfig,
    pub schemas: Vec<Schema>,
    pub extensions: Vec<Extension>,
    pub types: Vec<PgType>,
    pub enums: Vec<PgEnum>,
    pub sequences: Vec<Sequence>,
    pub routines: Vec<Routine>,
    pub tables: Vec<Table>,
    pub views: Vec<objects::View>,
    pub foreign_tables: Vec<ForeignTable>,
    pub statistics: Vec<Statistic>,
    pub rules: Vec<Rule>,
    pub event_triggers: Vec<EventTrigger>,
    pub collations: Vec<Collation>,
    pub ts_configs: Vec<TextSearchConfig>,
    pub ts_dicts: Vec<TextSearchDict>,
    pub casts: Vec<Cast>,
    pub operators: Vec<Operator>,
    pub default_privileges: Vec<DefaultPrivilege>,
    pub publications: Vec<Publication>,
    pub subscriptions: Vec<Subscription>,
    pub foreign_data_wrappers: Vec<ForeignDataWrapper>,
    pub foreign_servers: Vec<ForeignServer>,
    pub user_mappings: Vec<UserMapping>,
}

/// Everything that is read besides the schemas.
#[derive(Debug, Clone, PartialEq, Eq)]
pub struct Collected {
    pub types: Vec<PgType>,
    pub enums: Vec<PgEnum>,
    pub extensions: Vec<Extension>,
    pub sequences: Vec<Sequence>,
    pub routines: Vec<Routine>,
    pub tables: Vec<Table>,
    pub views: Vec<objects::View>,
    pub foreign_tables: Vec<ForeignTable>,
    pub statistics: Vec<Statistic>,
    pub rules: Vec<Rule>,
    pub event_triggers: Vec<EventTrigger>,
    pub collations: Vec<Collation>,
    pub ts_configs: Vec<TextSearchConfig>,
    pub ts_dicts: Vec<TextSearchDict>,
    pub operators: Vec<Operator>,
    pub casts: Vec<Cast>,
    pub default_privileges: Vec<DefaultPrivilege>,
    pub publications: Vec<Publication>,
    pub subscriptions: Vec<Subscription>,
    pub foreign_data_wrappers: Vec<ForeignDataWrapper>,
    pub foreign_servers: Vec<ForeignServer>,
    pub user_mappings: Vec<UserMapping>,
}

/// How many queries run side by side when a dump is filled.
pub const FILL_SIBLING_BRANCH_COUNT: u32 = 12;

/// The warning about a connection limit below the number of parallel branches.
pub open spec fn connection_warning_text(max_connections: nat) -> Seq<char> {
    "Warning: max_connections ("@ + decimal(max_connections)
        + ") is below the number of parallel dump branches ("@ + decimal(
        FILL_SIBLING_BRANCH_COUNT as nat,
    )
        + "). Branches will queue for connections and the dump may be significantly slower. Consider raising MAX_CONNECTIONS to at least "@
        + decimal(FILL_SIBLING_BRANCH_COUNT as nat) + "."@
}

/// The warning to give for a connection limit, if one is due.
pub fn connection_warning(max_connections: u32) -> (r: Option<String>)
    ensures
        r is Some <==> max_connections < FILL_SIBLING_BRANCH_COUNT,
        r matches Some(text) ==> text@ == connection_warning_text(max_connections as nat),
{
    if max_connections >= FILL_SIBLING_BRANCH_COUNT {
        return None;
    }
    let mut text = String::new();
    text.append("Warning: max_connections (");
    append_decimal(&mut text, max_connections as u64);
    text.append(") is below the number of parallel dump branches (");
    append_decimal(&mut text, FILL_SIBLING_BRANCH_COUNT as u64);
    text.append(
        "). Branches will queue for connections and the dump may be significantly slower. Consider raising MAX_CONNECTIONS to at least ",
    );
    append_decimal(&mut text, FILL_SIBLING_BRANCH_COUNT as u64);
    text.append(".");
    assert(text@ =~= connection_warning_text(max_connections as nat));
    Some(text)
}

/// The raw names of the schemas as SQL literals, separated by commas.
pub open spec fn schema_literals(schemas: Seq<Schema>) -> Seq<char>
    decreases schemas.len(),
{
    if schemas.len() == 0 {
        Seq::empty()
    } else if schemas.len() == 1 {
        sql_literal(schemas[0].raw_name@)
    } else {
        schema_literals(schemas.drop_last()) + ", "@ + sql_literal(schemas.last().raw_name@)
    }
}

/// The right side of an SQL `in` that holds for the schemas alone. Without
/// schemas it holds for nothing.
pub open spec fn schema_filter(schemas: Seq<Schema>) -> Seq<char> {
    if schemas.len() == 0 {
        "(NULL)"@
    } else {
        "("@ + schema_literals(schemas) + ")"@
    }
}

/// Reads a list of SQL string literals up to its closing bracket: the texts
/// that they stand for.
pub open spec fn read_literal_list(s: Seq<char>) -> Option<Seq<Seq<char>>>
    decreases s.len(),
{
    match read_literal(s) {
        Some((value, rest)) => if rest == ")"@ {
            Some(seq![value])
        } else if 2 <= rest.len() <= s.len() && rest[0] == ',' && rest[1] == ' ' {
            match read_literal_list(rest.skip(2)) {
                Some(more) => Some(seq![value] + more),
                None => None,
            }
        } else {
            None
        },
        None => None,
    }
}

proof fn lemma_literals_front(schemas: Seq<Schema>)
    requires
        schemas.len() > 1,
    ensures
        schema_literals(schemas) == sql_literal(schemas[0].raw_name@) + ", "@ + schema_literals(
            schemas.skip(1),
        ),
    decreases schemas.len(),
{
    let rest = schemas.skip(1);
    if schemas.len() == 2 {
        assert(schema_literals(schemas.drop_last()) == sql_literal(schemas[0].raw_name@));
    } else {
        lemma_literals_front(schemas.drop_last());
        assert(schemas.drop_last().skip(1) =~= rest.drop_last());
        assert(schema_literals(schemas) =~= sql_literal(schemas[0].raw_name@) + ", "@
            + schema_literals(rest));
    }
}

proof fn lemma_list_reads_back(schemas: Seq<Schema>)
    requires
        schemas.len() > 0,
    ensures
        read_literal_list(schema_literals(schemas) + ")"@) == Some(
            schemas.map_values(|s: Schema| s.raw_name@),
        ),
    decreases schemas.len(),
{
    reveal_strlit(")");
    reveal_strlit(", ");
    let names = schemas.map_values(|s: Schema| s.raw_name@);
    let first = schemas[0].raw_name@;
    let text = schema_literals(schemas) + ")"@;
    if schemas.len() == 1 {
        law_literal_reads_back(first, ")"@);
        assert(names =~= seq![first]);
    } else {
        let more = schemas.skip(1);
        let tail = schema_literals(more) + ")"@;
        lemma_literals_front(schemas);
        lemma_list_reads_back(more);
        let rest = ", "@ + tail;
        assert(text =~= sql_literal(first) + rest);
        law_literal_reads_back(first, rest);
        assert(rest.skip(2) =~= tail);
        assert(rest[0] == ',' && rest[1] == ' ' && ")"@[0] == ')');
        assert(names =~= seq![first] + more.map_values(|s: Schema| s.raw_name@));
    }
}

/// The filter names exactly the schemas, in order, whatever characters their
/// names hold.
pub proof fn law_filter_names_the_schemas(schemas: Seq<Schema>)
    requires
        schemas.len() > 0,
    ensures
        schema_filter(schemas)[0] == '(',
        read_literal_list(schema_filter(schemas).skip(1)) == Some(
            schemas.map_values(|s: Schema| s.raw_name@),
        ),
{
    reveal_strlit("(");
    lemma_list_reads_back(schemas);
    assert(schema_filter(schemas).skip(1) =~= schema_literals(schemas) + ")"@);
}

/// Without schemas the filter lets nothing pass.
pub proof fn law_filter_without_schemas(schemas: Seq<Schema>)
    ensures
        schema_filter(schemas) == "(NULL)"@ <==> schemas.len() == 0,
{
    reveal_strlit("(NULL)");
    if schemas.len() > 0 {
        law_filter_names_the_schemas(schemas);
        if schema_filter(schemas) == "(NULL)"@ {
            assert(schema_filter(schemas).skip(1)[0] == 'N');
            assert(read_literal_list(schema_filter(schemas).skip(1)) is None);
        }
    }
}

/// The warning says the limit that is too low and the one that is enough.
pub proof fn law_warning_says_both_limits(max_connections: nat)
    ensures
        occurs_in(
            "max_connections ("@ + decimal(max_connections) + ")"@,
            connection_warning_text(max_connections),
        ),
        occurs_in("to at least "@ + decimal(12) + "."@, connection_warning_text(max_connections)),
{
    lemma_warning_parts();
    let (n, m) = (decimal(max_connections), decimal(12));
    let text = connection_warning_text(max_connections);
    let (a, b) = ("Warning: "@, "max_connections ("@);
    let (c, d) = (
        ")"@,
        " is below the number of parallel dump branches ("@,
    );
    let (e, f) = (
        "). Branches will queue for connections and the dump may be significantly slower. Consider raising MAX_CONNECTIONS "@,
        "to at least "@,
    );
    assert(text == (a + b) + n + (c + d) + m + (e + f) + m + "."@);
    lemma_warning(a, b, n, c, d + m + (e + f) + m + "."@);
    assert(text =~= a + b + n + c + (d + m + (e + f) + m + "."@));
    let head = (a + b) + n + (c + d) + m + e;
    assert(text =~= head + (f + m + "."@) + Seq::empty());
}

proof fn lemma_warning(
    a: Seq<char>,
    b: Seq<char>,
    n: Seq<char>,
    c: Seq<char>,
    rest: Seq<char>,
)
    ensures
        occurs_in(b + n + c, a + b + n + c + rest),
{
    assert(a + b + n + c + rest =~= a + (b + n + c) + rest);
}

proof fn lemma_warning_parts()
    ensures
        "Warning: max_connections ("@ == "Warning: "@ + "max_connections ("@,
        ") is below the number of parallel dump branches ("@ == ")"@
            + " is below the number of parallel dump branches ("@,
        "). Branches will queue for connections and the dump may be significantly slower. Consider raising MAX_CONNECTIONS to at least "@
            == "). Branches will queue for connections and the dump may be significantly slower. Consider raising MAX_CONNECTIONS "@
            + "to at least "@,
{
    reveal_strlit("Warning: max_connections (");
    reveal_strlit("Warning: ");
    reveal_strlit("max_connections (");
    reveal_strlit(") is below the number of parallel dump branches (");
    reveal_strlit(")");
    reveal_strlit(" is below the number of parallel dump branches (");
    reveal_strlit(
        "). Branches will queue for connections and the dump may be significantly slower. Consider raising MAX_CONNECTIONS to at least ",
    );
    reveal_strlit(
        "). Branches will queue for connections and the dump may be significantly slower. Consider raising MAX_CONNECTIONS ",
    );
    reveal_strlit("to at least ");
    assert("Warning: max_connections ("@ =~= "Warning: "@ + "max_connections ("@);
    assert(") is below the number of parallel dump branches ("@ =~= ")"@
        + " is below the number of parallel dump branches ("@);
    assert("). Branches will queue for connections and the dump may be significantly slower. Consider raising MAX_CONNECTIONS to at least "@
        =~= "). Branches will queue for connections and the dump may be significantly slower. Consider raising MAX_CONNECTIONS "@
        + "to at least "@);
}

/// The counts of the objects in a dump.
pub open spec fn info_text(d: Dump) -> Seq<char> {
    "\tDump Info:\n\t\t- Schemas: "@ + decimal(d.schemas@.len()) + "\n\t\t- Extensions: "@ + decimal(
        d.extensions@.len(),
    ) + "\n\t\t- Types: "@ + decimal(d.types@.len()) + "\n\t\t- Enums: "@ + decimal(d.enums@.len())
        + "\n\t\t- Routines: "@ + decimal(d.routines@.len()) + "\n\t\t- Tables: "@ + decimal(
        d.tables@.len(),
    ) + "\n\t\t- Views: "@ + decimal(d.views@.len())
}

impl Dump {
    /// A dump without objects.
    pub fn new(config: DumpConfig) -> (r: Self)
        ensures
            r.configuration == config,
            r.schemas@.len() == 0,
            r.extensions@.len() == 0,
            r.types@.len() == 0,
            r.enums@.len() == 0,
            r.sequences@.len() == 0,
            r.routines@.len() == 0,
            r.tables@.len() == 0,
            r.views@.len() == 0,
            r.foreign_tables@.len() == 0,
            r.statistics@.len() == 0,
            r.rules@.len() == 0,
            r.event_triggers@.len() == 0,
            r.collations@.len() == 0,
            r.ts_configs@.len() == 0,
            r.ts_dicts@.len() == 0,
            r.casts@.len() == 0,
            r.operators@.len() == 0,
            r.default_privileges@.len() == 0,
            r.publications@.len() == 0,
            r.subscriptions@.len() == 0,
            r.foreign_data_wrappers@.len() == 0,
            r.foreign_servers@.len() == 0,
            r.user_mappings@.len() == 0,
    {
        Dump {
            configuration: config,
            schemas: Vec::new(),
            extensions: Vec::new(),
            types: Vec::new(),
            enums: Vec::new(),
            sequences: Vec::new(),
            routines: Vec::new(),
            tables: Vec::new(),
            views: Vec::new(),
            foreign_tables: Vec::new(),
            statistics: Vec::new(),
            rules: Vec::new(),
            event_triggers: Vec::new(),
            collations: Vec::new(),
            ts_configs: Vec::new(),
            ts_dicts: Vec::new(),
            casts: Vec::new(),
            operators: Vec::new(),
            default_privileges: Vec::new(),
            publications: Vec::new(),
            subscriptions: Vec::new(),
            foreign_data_wrappers: Vec::new(),
            foreign_servers: Vec::new(),
            user_mappings: Vec::new(),
        }
    }

    /// The right side of an SQL `in` for the accessible schemas, such as
    /// `('public', 'data')`; `(NULL)` where there are none.
    pub fn accessible_schema_filter(&self) -> (r: String)
        ensures
            r@ == schema_filter(self.schemas@),
    {
        if self.schemas.is_empty() {
            return "(NULL)".to_string();
        }
        let mut out = String::new();
        out.append("(");
        append_sql_literal(&mut out, self.schemas[0].raw_name.as_str());
        let mut i: usize = 1;
        assert(self.schemas@.take(1)[0] == self.schemas@[0]);
        assert(out@ =~= "("@ + schema_literals(self.schemas@.take(1)));
        while i < self.schemas.len()
            invariant
                1 <= i <= self.schemas@.len(),
                out@ == "("@ + schema_literals(self.schemas@.take(i as int)),
            decreases self.schemas@.len() - i,
        {
            out.append(", ");
            append_sql_literal(&mut out, self.schemas[i].raw_name.as_str());
            i += 1;
            proof {
                let some = self.schemas@.take(i as int);
                assert(some.drop_last() =~= self.schemas@.take(i - 1));
                assert(some.last() == self.schemas@[i - 1]);
                assert(out@ =~= "("@ + schema_literals(some));
            }
        }
        assert(self.schemas@.take(i as int) =~= self.schemas@);
        out.append(")");
        out
    }

    /// The counts of the main kinds of objects, for people to read.
    pub fn get_info(&self) -> (r: String)
        ensures
            r@ == info_text(*self),
    {
        let mut out = String::new();
        out.append("\tDump Info:\n\t\t- Schemas: ");
        append_decimal(&mut out, self.schemas.len() as u64);
        out.append("\n\t\t- Extensions: ");
        append_decimal(&mut out, self.extensions.len() as u64);
        out.append("\n\t\t- Types: ");
        append_decimal(&mut out, self.types.len() as u64);
        out.append("\n\t\t- Enums: ");
        append_decimal(&mut out, self.enums.len() as u64);
        out.append("\n\t\t- Routines: ");
        append_decimal(&mut out, self.routines.len() as u64);
        out.append("\n\t\t- Tables: ");
        append_decimal(&mut out, self.tables.len() as u64);
        out.append("\n\t\t- Views: ");
        append_decimal(&mut out, self.views.len() as u64);
        assert(out@ =~= info_text(*self));
        out
    }

    /// Whether there is a schema to read objects from.
    pub fn has_accessible_schemas(&self) -> (r: bool)
        ensures
            r == (self.schemas@.len() > 0),
    {
        !self.schemas.is_empty()
    }

    /// Puts what was read in the place of what the dump held; the
    /// configuration and the schemas stay.
    pub fn absorb(&mut self, collected: Collected)
        ensures
            final(self).configuration == old(self).configuration,
            final(self).schemas == old(self).schemas,
            final(self).types == collected.types,
            final(self).enums == collected.enums,
            final(self).extensions == collected.extensions,
            final(self).sequences == collected.sequences,
            final(self).routines == collected.routines,
            final(self).tables == collected.tables,
            final(self).views == collected.views,
            final(self).foreign_tables == collected.foreign_tables,
            final(self).statistics == collected.statistics,
            final(self).rules == collected.rules,
            final(self).event_triggers == collected.event_triggers,
            final(self).collations == collected.collations,
            final(self).ts_configs == collected.ts_configs,
            final(self).ts_dicts == collected.ts_dicts,
            final(self).operators == collected.operators,
            final(self).casts == collected.casts,
            final(self).default_privileges == collected.default_privileges,
            final(self).publications == collected.publications,
            final(self).subscriptions == collected.subscriptions,
            final(self).foreign_data_wrappers == collected.foreign_data_wrappers,
            final(self).foreign_servers == collected.foreign_servers,
            final(self).user_mappings == collected.user_mappings,
    {
        self.types = collected.types;
        self.enums = collected.enums;
        self.extensions = collected.extensions;
        self.sequences = collected.sequences;
        self.routines = collected.routines;
        self.tables = collected.tables;
        self.views = collected.views;
        self.foreign_tables = collected.foreign_tables;
        self.statistics = collected.statistics;
        self.rules = collected.rules;
        self.event_triggers = collected.event_triggers;
        self.collations = collected.collations;
        self.ts_configs = collected.ts_configs;
        self.ts_dicts = collected.ts_dicts;
        self.operators = collected.operators;
        self.casts = collected.casts;
        self.default_privileges = collected.default_privileges;
        self.publications = collected.publications;
        self.subscriptions = collected.subscriptions;
        self.foreign_data_wrappers = collected.foreign_data_wrappers;
        self.foreign_servers = collected.foreign_servers;
        self.user_mappings = collected.user_mappings;
    }
}

} // verus!
