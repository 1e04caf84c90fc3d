//! The filtered, paginated listing of records.
//!
//! The filters of a listing are optional and combine with AND. They are first
//! gathered into a list of conditions, each with the value it is bound to.
//! The position of a placeholder in the statement is the place of its
//! condition in that list, so the text and the bound values cannot drift
//! apart, whichever filters are present.

use crate::models::{LogEntry, LogFilter, LogQueryParams, LogRecord};
use crate::numerals::{decimal, push_decimal};
use vstd::prelude::*;

verus! {

/// The page size of a listing that names none.
pub const DEFAULT_LIMIT: i64 = 100;

/// The largest page size of a listing.
pub const MAX_LIMIT: i64 = 1000;

/// A column of the table of records that a listing can filter on.
#[derive(Clone, Copy, Debug, PartialEq, Eq, Structural)]
pub enum Column {
    EventType,
    Severity,
    CreatedAt,
}

/// How a column is held against a bound value.
#[derive(Clone, Copy, Debug, PartialEq, Eq, Structural)]
pub enum Comparison {
    Equal,
    AtLeast,
    AtMost,
}

/// A value bound to a placeholder of a statement.
#[derive(Debug, PartialEq, Eq)]
pub enum BindValue {
    Text(String),
    Instant(i64),
    Integer(i64),
}

/// A bound value, as seen by contracts.
pub enum BoundValue {
    Text(Seq<char>),
    Instant(i64),
    Integer(i64),
}

/// One condition of a listing, with the value it is bound to.
#[derive(Debug, PartialEq, Eq)]
pub struct Predicate {
    pub column: Column,
    pub comparison: Comparison,
    pub value: BindValue,
}

/// A condition, as seen by contracts.
pub struct Condition {
    pub column: Column,
    pub comparison: Comparison,
    pub value: BoundValue,
}

impl Column {
    /// The column's name in a statement.
    pub open spec fn name(self) -> Seq<char> {
        match self {
            Column::EventType => "event_type"@,
            Column::Severity => "severity"@,
            Column::CreatedAt => "created_at"@,
        }
    }

    /// The column's name in a statement.
    pub fn as_str(&self) -> (s: &'static str)
        ensures
            s@ == self.name(),
    {
        match self {
            Column::EventType => "event_type",
            Column::Severity => "severity",
            Column::CreatedAt => "created_at",
        }
    }

    /// What a record holds in the column.
    pub open spec fn of(self, record: LogRecord) -> BoundValue {
        match self {
            Column::EventType => BoundValue::Text(record.event_type),
            Column::Severity => BoundValue::Text(record.severity),
            Column::CreatedAt => BoundValue::Instant(record.created_at),
        }
    }
}

impl Comparison {
    /// The comparison's operator in a statement.
    pub open spec fn symbol(self) -> Seq<char> {
        match self {
            Comparison::Equal => "="@,
            Comparison::AtLeast => ">="@,
            Comparison::AtMost => "<="@,
        }
    }

    /// The comparison's operator in a statement.
    pub fn as_str(&self) -> (s: &'static str)
        ensures
            s@ == self.symbol(),
    {
        match self {
            Comparison::Equal => "=",
            Comparison::AtLeast => ">=",
            Comparison::AtMost => "<=",
        }
    }

    /// Whether `actual` stands in this relation to `bound`. Texts are only
    /// ever equal or not; an order exists between two instants alone.
    pub open spec fn admits(self, actual: BoundValue, bound: BoundValue) -> bool {
        match self {
            Comparison::Equal => actual == bound,
            Comparison::AtLeast => actual matches BoundValue::Instant(a) && bound
                matches BoundValue::Instant(b) && a >= b,
            Comparison::AtMost => actual matches BoundValue::Instant(a) && bound
                matches BoundValue::Instant(b) && a <= b,
        }
    }
}

impl View for BindValue {
    type V = BoundValue;

    open spec fn view(&self) -> BoundValue {
        match self {
            BindValue::Text(s) => BoundValue::Text(s@),
            BindValue::Instant(t) => BoundValue::Instant(*t),
            BindValue::Integer(n) => BoundValue::Integer(*n),
        }
    }
}

impl Clone for BindValue {
    fn clone(&self) -> (copy: BindValue)
        ensures
            copy == *self,
    {
        match self {
            BindValue::Text(s) => BindValue::Text(s.clone()),
            BindValue::Instant(t) => BindValue::Instant(*t),
            BindValue::Integer(n) => BindValue::Integer(*n),
        }
    }
}

impl View for Predicate {
    type V = Condition;

    open spec fn view(&self) -> Condition {
        Condition { column: self.column, comparison: self.comparison, value: self.value@ }
    }
}

impl Condition {
    /// Whether a record meets the condition.
    pub open spec fn holds(self, record: LogRecord) -> bool {
        self.comparison.admits(self.column.of(record), self.value)
    }
}

impl Predicate {
    /// Whether a record meets the condition.
    pub fn accepts(&self, entry: &LogEntry) -> (b: bool)
        ensures
            b == self@.holds(entry@),
    {
        match (&self.column, &self.value) {
            (Column::EventType, BindValue::Text(bound)) => {
                match self.comparison {
                    Comparison::Equal => entry.event_type == *bound,
                    _ => false,
                }
            },
            (Column::Severity, BindValue::Text(bound)) => {
                match self.comparison {
                    Comparison::Equal => entry.severity == *bound,
                    _ => false,
                }
            },
            (Column::CreatedAt, BindValue::Instant(bound)) => {
                match self.comparison {
                    Comparison::Equal => entry.created_at == *bound,
                    Comparison::AtLeast => entry.created_at >= *bound,
                    Comparison::AtMost => entry.created_at <= *bound,
                }
            },
            _ => false,
        }
    }
}

/// The views of a list of conditions.
pub open spec fn condition_views(list: Seq<Predicate>) -> Seq<Condition> {
    list.map_values(|p: Predicate| p@)
}

/// Whether a record meets every condition of a list.
pub open spec fn holds_all(conditions: Seq<Condition>, record: LogRecord) -> bool {
    forall|i: int| 0 <= i < conditions.len() ==> (#[trigger] conditions[i]).holds(record)
}

/// The condition of one optional text filter.
pub open spec fn text_condition(column: Column, filter: Option<Seq<char>>) -> Seq<Condition> {
    match filter {
        Some(text) => seq![
            Condition { column, comparison: Comparison::Equal, value: BoundValue::Text(text) },
        ],
        None => seq![],
    }
}

/// The condition of one optional bound on `created_at`.
pub open spec fn date_condition(comparison: Comparison, filter: Option<i64>) -> Seq<Condition> {
    match filter {
        Some(instant) => seq![
            Condition { column: Column::CreatedAt, comparison, value: BoundValue::Instant(instant) },
        ],
        None => seq![],
    }
}

/// The conditions of a listing: one for each filter that is present, in the
/// order event type, severity, earliest date, latest date.
pub open spec fn conditions(filter: LogFilter) -> Seq<Condition> {
    text_condition(Column::EventType, filter.event_type) + text_condition(
        Column::Severity,
        filter.severity,
    ) + date_condition(Comparison::AtLeast, filter.from_date) + date_condition(
        Comparison::AtMost,
        filter.to_date,
    )
}

/// Whether a record passes the filters of a listing: each filter that is
/// present must hold, an absent one asks nothing.
pub open spec fn passes(filter: LogFilter, record: LogRecord) -> bool {
    &&& filter.event_type matches Some(event_type) ==> record.event_type == event_type
    &&& filter.severity matches Some(severity) ==> record.severity == severity
    &&& filter.from_date matches Some(from) ==> record.created_at >= from
    &&& filter.to_date matches Some(to) ==> record.created_at <= to
}

/// The conditions that are composed for a listing ask exactly what its
/// filters ask: a record meets all of them if and only if it passes every
/// filter that is present.
pub proof fn lemma_conditions_match(filter: LogFilter, record: LogRecord)
    ensures
        holds_all(conditions(filter), record) <==> passes(filter, record),
{
    let a = text_condition(Column::EventType, filter.event_type);
    let b = text_condition(Column::Severity, filter.severity);
    let c = date_condition(Comparison::AtLeast, filter.from_date);
    let d = date_condition(Comparison::AtMost, filter.to_date);
    let all = conditions(filter);
    assert(all == a + b + c + d);
    if passes(filter, record) {
        assert forall|i: int| 0 <= i < all.len() implies (#[trigger] all[i]).holds(record) by {
            if i < a.len() {
                assert(all[i] == a[i]);
            } else if i < a.len() + b.len() {
                assert(all[i] == b[i - a.len()]);
            } else if i < a.len() + b.len() + c.len() {
                assert(all[i] == c[i - a.len() - b.len()]);
            } else {
                assert(all[i] == d[i - a.len() - b.len() - c.len()]);
            }
        }
    }
    if holds_all(all, record) {
        if filter.event_type is Some {
            assert(all[0] == a[0]);
            assert(all[0].holds(record));
        }
        if filter.severity is Some {
            let i = a.len() as int;
            assert(all[i] == b[0]);
            assert(all[i].holds(record));
        }
        if filter.from_date is Some {
            let i = (a.len() + b.len()) as int;
            assert(all[i] == c[0]);
            assert(all[i].holds(record));
        }
        if filter.to_date is Some {
            let i = (a.len() + b.len() + c.len()) as int;
            assert(all[i] == d[0]);
            assert(all[i].holds(record));
        }
    }
}

/// The page size of a listing: 100 where none is named, and never more than
/// 1000.
pub open spec fn page_limit(limit: Option<i64>) -> i64 {
    let asked = match limit {
        Some(n) => n,
        None => DEFAULT_LIMIT,
    };
    if asked < MAX_LIMIT {
        asked
    } else {
        MAX_LIMIT
    }
}

/// The number of matching records that a listing skips: 0 where none is
/// named.
pub open spec fn page_offset(offset: Option<i64>) -> i64 {
    match offset {
        Some(n) => n,
        None => 0,
    }
}

/// The page size of a listing.
pub fn effective_limit(limit: Option<i64>) -> (n: i64)
    ensures
        n == page_limit(limit),
        n <= MAX_LIMIT,
        limit is None ==> n == DEFAULT_LIMIT,
{
    let asked: i64 = match limit {
        Some(n) => n,
        None => DEFAULT_LIMIT,
    };
    if asked < MAX_LIMIT {
        asked
    } else {
        MAX_LIMIT
    }
}

/// The number of matching records that a listing skips.
pub fn effective_offset(offset: Option<i64>) -> (n: i64)
    ensures
        n == page_offset(offset),
{
    match offset {
        Some(n) => n,
        None => 0,
    }
}

/// Gathers the conditions of a listing, one for each filter that is present.
pub fn predicates(params: &LogQueryParams) -> (list: Vec<Predicate>)
    ensures
        condition_views(list@) == conditions(params.filter()),
        list@.len() <= 4,
{
    let mut list: Vec<Predicate> = Vec::new();
    assert(condition_views(list@) == Seq::<Condition>::empty());
    if let Some(event_type) = &params.event_type {
        list.push(
            Predicate {
                column: Column::EventType,
                comparison: Comparison::Equal,
                value: BindValue::Text(event_type.clone()),
            },
        );
    }
    let ghost first = text_condition(Column::EventType, params.filter().event_type);
    assert(condition_views(list@) == first);
    if let Some(severity) = &params.severity {
        list.push(
            Predicate {
                column: Column::Severity,
                comparison: Comparison::Equal,
                value: BindValue::Text(severity.clone()),
            },
        );
    }
    let ghost second = first + text_condition(Column::Severity, params.filter().severity);
    assert(condition_views(list@) == second);
    if let Some(from_date) = params.from_date {
        list.push(
            Predicate {
                column: Column::CreatedAt,
                comparison: Comparison::AtLeast,
                value: BindValue::Instant(from_date),
            },
        );
    }
    let ghost third = second + date_condition(Comparison::AtLeast, params.from_date);
    assert(condition_views(list@) == third);
    if let Some(to_date) = params.to_date {
        list.push(
            Predicate {
                column: Column::CreatedAt,
                comparison: Comparison::AtMost,
                value: BindValue::Instant(to_date),
            },
        );
    }
    assert(condition_views(list@) == third + date_condition(Comparison::AtMost, params.to_date));
    list
}

/// The placeholder of the value at a position of a statement. Positions
/// count from 1.
pub open spec fn placeholder(position: nat) -> Seq<char> {
    seq!['$'] + decimal(position)
}

/// The text that a condition adds to a statement when it stands at
/// `position`.
pub open spec fn clause(condition: Condition, position: nat) -> Seq<char> {
    " AND "@ + condition.column.name() + " "@ + condition.comparison.symbol() + " "@ + placeholder(
        position,
    )
}

/// The text of a list of conditions: the clause of each, the one at place
/// `i` of the list with the placeholder of position `i + 1`.
pub open spec fn where_text(conditions: Seq<Condition>) -> Seq<char>
    decreases conditions.len(),
{
    if conditions.len() == 0 {
        Seq::empty()
    } else {
        where_text(conditions.drop_last()) + clause(conditions.last(), conditions.len())
    }
}

/// The statement that counts the records that meet a list of conditions.
pub open spec fn count_text(conditions: Seq<Condition>) -> Seq<char> {
    "SELECT COUNT(*) FROM logs WHERE 1=1"@ + where_text(conditions)
}

/// The statement that selects one page of the records that meet a list of
/// conditions, newest first. The page's limit and offset are bound behind the
/// values of the conditions.
pub open spec fn select_text(conditions: Seq<Condition>) -> Seq<char> {
    "SELECT * FROM logs WHERE 1=1"@ + where_text(conditions)
        + " ORDER BY created_at DESC, id ASC"@ + " LIMIT "@ + placeholder(conditions.len() + 1)
        + " OFFSET "@ + placeholder(conditions.len() + 2)
}

/// Appends the placeholder of a position to a text.
pub fn push_placeholder(text: &mut String, position: usize)
    ensures
        final(text)@ == old(text)@ + placeholder(position as nat),
{
    proof {
        reveal_strlit("$");
    }
    text.append("$");
    push_decimal(text, position);
    assert(final(text)@ =~= old(text)@ + placeholder(position as nat));
}

/// Appends the clauses of a list of conditions to a text.
pub fn push_where(text: &mut String, list: &Vec<Predicate>)
    ensures
        final(text)@ == old(text)@ + where_text(condition_views(list@)),
{
    let ghost all = condition_views(list@);
    let mut i: usize = 0;
    assert(all.take(0) =~= Seq::<Condition>::empty());
    assert(text@ =~= old(text)@ + where_text(all.take(0)));
    while i < list.len()
        invariant
            i <= list.len(),
            all == condition_views(list@),
            text@ == old(text)@ + where_text(all.take(i as int)),
        decreases list.len() - i,
    {
        let ghost before = text@;
        text.append(" AND ");
        text.append(list[i].column.as_str());
        text.append(" ");
        text.append(list[i].comparison.as_str());
        text.append(" ");
        push_placeholder(text, i + 1);
        proof {
            let next = all.take(i + 1);
            assert(next.drop_last() =~= all.take(i as int));
            assert(next.last() == list@[i as int]@);
            assert(text@ =~= before + clause(list@[i as int]@, (i + 1) as nat));
            assert(text@ =~= old(text)@ + where_text(next));
        }
        i = i + 1;
    }
    assert(all.take(i as int) =~= all);
}

/// The values of a list of conditions, in the order of the list.
pub open spec fn bound_values(conditions: Seq<Condition>) -> Seq<BoundValue> {
    conditions.map_values(|c: Condition| c.value)
}

/// The views of a list of bound values.
pub open spec fn value_views(values: Seq<BindValue>) -> Seq<BoundValue> {
    values.map_values(|v: BindValue| v@)
}

/// A listing that is ready to be run: its conditions and its page.
#[derive(Debug, PartialEq, Eq)]
pub struct QueryPlan {
    pub predicates: Vec<Predicate>,
    pub limit: i64,
    pub offset: i64,
}

impl QueryPlan {
    /// The conditions of the plan, as contracts see them.
    pub open spec fn conditions(&self) -> Seq<Condition> {
        condition_views(self.predicates@)
    }

    /// Whether this is the plan of a listing with these filters and this
    /// page.
    pub open spec fn plans(&self, params: LogQueryParams) -> bool {
        &&& self.conditions() == conditions(params.filter())
        &&& self.limit == page_limit(params.limit)
        &&& self.offset == page_offset(params.offset)
    }

    /// Plans a listing: one condition for each filter that is present, the
    /// page size defaulted and capped, the offset defaulted.
    pub fn new(params: &LogQueryParams) -> (plan: QueryPlan)
        ensures
            plan.plans(*params),
            plan.predicates@.len() <= 4,
    {
        QueryPlan {
            predicates: predicates(params),
            limit: effective_limit(params.limit),
            offset: effective_offset(params.offset),
        }
    }

    /// Whether a record meets every condition of the plan.
    pub fn accepts(&self, entry: &LogEntry) -> (b: bool)
        ensures
            b == holds_all(self.conditions(), entry@),
    {
        let mut i: usize = 0;
        while i < self.predicates.len()
            invariant
                i <= self.predicates.len(),
                forall|k: int| 0 <= k < i ==> (#[trigger] self.conditions()[k]).holds(entry@),
            decreases self.predicates.len() - i,
        {
            if !self.predicates[i].accepts(entry) {
                assert(!self.conditions()[i as int].holds(entry@));
                return false;
            }
            i = i + 1;
        }
        true
    }

    /// The statement that counts the matching records. Its placeholders are
    /// `$1` to `$n` for `n` conditions, in the order of `count_binds`.
    pub fn count_sql(&self) -> (sql: String)
        ensures
            sql@ == count_text(self.conditions()),
    {
        let mut sql = "SELECT COUNT(*) FROM logs WHERE 1=1".to_owned();
        push_where(&mut sql, &self.predicates);
        sql
    }

    /// The statement that selects the page, newest first, records of one
    /// instant in the order of their ids. Its placeholders are `$1` to
    /// `$n + 2` for `n` conditions, in the order of `binds`.
    pub fn select_sql(&self) -> (sql: String)
        requires
            self.predicates@.len() + 2 <= usize::MAX,
        ensures
            sql@ == select_text(self.conditions()),
    {
        let mut sql = "SELECT * FROM logs WHERE 1=1".to_owned();
        push_where(&mut sql, &self.predicates);
        sql.append(" ORDER BY created_at DESC, id ASC");
        sql.append(" LIMIT ");
        push_placeholder(&mut sql, self.predicates.len() + 1);
        sql.append(" OFFSET ");
        push_placeholder(&mut sql, self.predicates.len() + 2);
        sql
    }

    /// The values to bind to the counting statement: the value of each
    /// condition, in the order of the conditions.
    pub fn count_binds(&self) -> (values: Vec<BindValue>)
        ensures
            value_views(values@) == bound_values(self.conditions()),
    {
        let mut values: Vec<BindValue> = Vec::new();
        let mut i: usize = 0;
        while i < self.predicates.len()
            invariant
                i <= self.predicates.len(),
                values@.len() == i,
                forall|k: int| 0 <= k < i ==> (#[trigger] values@[k])@ == self.predicates@[k].value@,
            decreases self.predicates.len() - i,
        {
            values.push(self.predicates[i].value.clone());
            i = i + 1;
        }
        assert(value_views(values@) =~= bound_values(self.conditions()));
        values
    }

    /// The values to bind to the selecting statement: those of the
    /// conditions, behind them the limit and the offset.
    pub fn binds(&self) -> (values: Vec<BindValue>)
        ensures
            value_views(values@) == bound_values(self.conditions()).push(
                BoundValue::Integer(self.limit),
            ).push(BoundValue::Integer(self.offset)),
    {
        let mut values = self.count_binds();
        values.push(BindValue::Integer(self.limit));
        values.push(BindValue::Integer(self.offset));
        assert(value_views(values@) =~= bound_values(self.conditions()).push(
            BoundValue::Integer(self.limit),
        ).push(BoundValue::Integer(self.offset)));
        values
    }
}

} // verus!
