//! Pages put together: what the pages of a request show one after another, each
//! with as many items as it was asked for, is what the request stands for, with
//! nothing twice and nothing left out.
use vstd::prelude::*;

use crate::cursor::CursorV;
use crate::filter::{ClauseV, Order};
use crate::index::{IndexV, StepV};
use crate::json::JsonV;
use crate::model::{Archive, Filed};
use crate::sql::{AnswerV, MessageRowV, SqlV, StatementV};

verus! {

/// One page of messages: the archive as it was when the page was read, the
/// request with the cursor that it presented, and the rows that were found.
pub struct Page {
    pub archive: Archive,
    pub p: JsonV,
    pub old: Option<CursorV>,
    pub rows: Seq<MessageRowV>,
}

/// What pages are pages of.
pub struct Request {
    pub p: JsonV,
    pub updates: bool,
    pub conversation: Seq<char>,
    pub snapshot: i64,
    pub found: Seq<Seq<Seq<char>>>,
}

impl Request {
    /// The conditions behind a cursor.
    pub open spec fn clauses(self, old: Option<CursorV>) -> Seq<ClauseV> {
        crate::query::query_clauses(
            self.p,
            self.updates,
            self.conversation,
            self.snapshot,
            old,
            self.found,
        )->Ok_0
    }

    /// Whether the request can be met.
    pub open spec fn is_sound(self) -> bool {
        crate::query::query_clauses(
            self.p,
            self.updates,
            self.conversation,
            self.snapshot,
            None,
            self.found,
        ) is Ok
    }

    /// The order in which messages are shown.
    pub open spec fn order(self) -> Order {
        crate::model::order_of(self.p, self.updates)
    }
}

/// The rows that a page shows.
pub open spec fn shown(page: Page) -> Seq<MessageRowV> {
    crate::query::shown(page.rows, crate::query::query_limit(page.p))
}

/// Whether a page says that there is more.
pub open spec fn has_more(page: Page) -> bool {
    page.rows.len() > crate::query::query_limit(page.p)
}

/// What pages show, one after another.
pub open spec fn joined(pages: Seq<Page>) -> Seq<MessageRowV>
    decreases pages.len(),
{
    if pages.len() == 0 {
        Seq::empty()
    } else {
        joined(pages.drop_last()) + shown(pages.last())
    }
}

/// Whether a page is a true answer to the request, paged in its own way.
pub open spec fn is_page(r: Request, page: Page) -> bool {
    &&& crate::query::canonical(page.p) == crate::query::canonical(r.p)
    &&& crate::model::tells(
        page.archive,
        StatementV::Messages(
            crate::query::planned_query(
                page.p,
                r.updates,
                r.conversation,
                r.snapshot,
                page.old,
                r.found,
            )->Ok_0,
        ),
        AnswerV::Messages(page.rows),
    )
}

/// Whether a cursor is the one that a page hands back: it stands where the page
/// stopped.
pub open spec fn goes_on(r: Request, page: Page, old: Option<CursorV>) -> bool {
    crate::query::stopped(shown(page), r.updates, crate::query::since(page.old)) matches Some(
        (time, id),
    ) && (old matches Some(c) && c.time == time && c.id == id)
}

/// Whether pages follow one another from a cursor on: each presents the cursor
/// that the page before it handed back.
pub open spec fn chained(r: Request, start: Option<CursorV>, pages: Seq<Page>) -> bool {
    &&& forall|i: int| 0 <= i < pages.len() ==> is_page(r, #[trigger] pages[i])
    &&& pages.len() > 0 ==> pages[0].old == start
    &&& forall|i: int, k: int|
        0 <= i < pages.len() && k == i + 1 && k < pages.len() ==> goes_on(
            r,
            #[trigger] pages[i],
            (#[trigger] pages[k]).old,
        )
}

proof fn lemma_plan_of_page(r: Request, page: Page)
    requires
        r.is_sound(),
        crate::query::canonical(page.p) == crate::query::canonical(r.p),
    ensures
        ({
            let q = crate::query::planned_query(
                page.p,
                r.updates,
                r.conversation,
                r.snapshot,
                page.old,
                r.found,
            );
            q is Ok && q->Ok_0.clauses == r.clauses(page.old) && q->Ok_0.order == r.order()
                && q->Ok_0.limit == crate::query::query_limit(page.p) + 1
        }),
{
    crate::query::law_paging_changes_no_request(
        page.p,
        r.p,
        r.updates,
        r.conversation,
        r.snapshot,
        page.old,
        r.found,
    );
}

proof fn lemma_list_of_page(r: Request, page: Page) -> (s: Seq<Filed>)
    requires
        r.is_sound(),
        is_page(r, page),
    ensures
        crate::model::lists(page.archive, r.clauses(page.old), r.order(), s),
        shown(page) == crate::model::rows_of(
            crate::model::first_of(s, crate::query::query_limit(page.p)),
        ),
        has_more(page) <==> s.len() > crate::query::query_limit(page.p),
{
    lemma_plan_of_page(r, page);
    let q = crate::query::planned_query(
        page.p,
        r.updates,
        r.conversation,
        r.snapshot,
        page.old,
        r.found,
    )->Ok_0;
    let limit = crate::query::query_limit(page.p);
    let s = choose|s: Seq<Filed>| #[trigger]
        crate::model::lists(page.archive, q.clauses, q.order, s) && page.rows
            == crate::model::first_of(crate::model::rows_of(s), q.limit as int);
    assert(shown(page) =~= crate::model::rows_of(crate::model::first_of(s, limit)));
    s
}

proof fn lemma_page_takes_from_the_list(
    r: Request,
    z: Archive,
    page: Page,
    s: Seq<Filed>,
    rest: Seq<Filed>,
)
    requires
        r.is_sound(),
        s.len() <= rest.len(),
        s == rest.take(s.len() as int),
        crate::model::lists(z, r.clauses(page.old), r.order(), rest),
        shown(page) == crate::model::rows_of(
            crate::model::first_of(s, crate::query::query_limit(page.p)),
        ),
    ensures
        shown(page).len() <= rest.len(),
        shown(page) == crate::model::rows_of(rest.take(shown(page).len() as int)),
        forall|old: Option<CursorV>| #[trigger]
            goes_on(r, page, old) ==> crate::model::lists(
                z,
                r.clauses(old),
                r.order(),
                rest.skip(shown(page).len() as int),
            ),
{
    let n = shown(page).len() as int;
    assert(shown(page) =~= crate::model::rows_of(rest.take(n)));
    assert forall|old: Option<CursorV>| #[trigger] goes_on(r, page, old) implies
        crate::model::lists(z, r.clauses(old), r.order(), rest.skip(n)) by {
        if n > 0 {
            assert(shown(page)[n - 1] == crate::model::rows_of(rest.take(n))[n - 1]);
            assert(crate::model::behind(old->0, r.updates, rest[n - 1]));
            crate::model::law_next_page_goes_on(
                z,
                r.p,
                r.updates,
                r.conversation,
                r.snapshot,
                page.old,
                r.found,
                rest,
                n,
                old->0,
            );
        } else {
            assert(rest.skip(0) =~= rest);
            assert(r.clauses(old) == r.clauses(page.old));
        }
    }
}

proof fn lemma_joined_grows(
    all: Seq<Filed>,
    before: Seq<MessageRowV>,
    page: Seq<MessageRowV>,
)
    requires
        before.len() <= all.len(),
        before == crate::model::rows_of(all.take(before.len() as int)),
        page.len() <= all.len() - before.len(),
        page == crate::model::rows_of(
            all.skip(before.len() as int).take(page.len() as int),
        ),
    ensures
        (before + page).len() <= all.len(),
        before + page == crate::model::rows_of(all.take((before + page).len() as int)),
        all.skip(before.len() as int).skip(page.len() as int) == all.skip(
            (before + page).len() as int,
        ),
{
    assert(before + page =~= crate::model::rows_of(all.take((before + page).len() as int)));
    assert(all.skip(before.len() as int).skip(page.len() as int) =~= all.skip(
        (before + page).len() as int,
    ));
}

proof fn lemma_front_is_chained(r: Request, start: Option<CursorV>, pages: Seq<Page>)
    requires
        pages.len() > 1,
        chained(r, start, pages),
    ensures
        chained(r, start, pages.drop_last()),
        goes_on(r, pages.drop_last().last(), pages.last().old),
{
    let front = pages.drop_last();
    assert forall|i: int| 0 <= i < front.len() implies is_page(r, #[trigger] front[i]) by {
        assert(front[i] == pages[i]);
    }
    assert forall|i: int, k: int|
        0 <= i < front.len() && k == i + 1 && k < front.len() implies goes_on(
        r,
        #[trigger] front[i],
        (#[trigger] front[k]).old,
    ) by {
        assert(front[i] == pages[i] && front[k] == pages[k]);
    }
    assert(front.last() == pages[pages.len() - 2]);
    assert(goes_on(r, pages[pages.len() - 2], pages[pages.len() - 1].old));
}

proof fn lemma_pages_join(
    r: Request,
    a: Archive,
    start: Option<CursorV>,
    pages: Seq<Page>,
    all: Seq<Filed>,
)
    requires
        r.is_sound(),
        !r.updates,
        r.snapshot <= a.top,
        pages.len() > 0,
        chained(r, start, pages),
        forall|i: int|
            0 <= i < pages.len() ==> crate::model::grown(a, (#[trigger] pages[i]).archive),
        crate::model::lists(a, r.clauses(start), r.order(), all),
    ensures
        joined(pages).len() <= all.len(),
        joined(pages) == crate::model::rows_of(all.take(joined(pages).len() as int)),
        !has_more(pages.last()) ==> joined(pages).len() == all.len(),
        forall|old: Option<CursorV>| #[trigger]
            goes_on(r, pages.last(), old) ==> crate::model::lists(
                a,
                r.clauses(old),
                r.order(),
                all.skip(joined(pages).len() as int),
            ),
    decreases pages.len(),
{
    let front = pages.drop_last();
    let page = pages.last();
    let before = joined(front);
    if front.len() > 0 {
        lemma_front_is_chained(r, start, pages);
        assert forall|i: int| 0 <= i < front.len() implies crate::model::grown(
            a,
            (#[trigger] front[i]).archive,
        ) by {
            assert(front[i] == pages[i]);
        }
        lemma_pages_join(r, a, start, front, all);
    } else {
        assert(before =~= crate::model::rows_of(all.take(0)));
        assert(all.skip(0) =~= all);
        assert(pages[0] == page);
    }
    let rest = all.skip(before.len() as int);
    assert(crate::model::lists(a, r.clauses(page.old), r.order(), rest));
    assert(is_page(r, pages[pages.len() - 1]));
    let s = lemma_list_of_page(r, page);
    assert(crate::model::grown(a, pages[pages.len() - 1].archive));
    assert(r.clauses(page.old)[1] == ClauseV::UpTo(r.snapshot));
    crate::model::lemma_grown_lists_alike(
        a,
        page.archive,
        r.clauses(page.old),
        r.order(),
        r.snapshot,
        s,
    );
    crate::model::lemma_lists_alike(a, r.clauses(page.old), r.order(), s, rest);
    assert(s =~= rest.take(s.len() as int));
    lemma_page_takes_from_the_list(r, a, page, s, rest);
    lemma_joined_grows(all, before, shown(page));
}

/// The pages of a query, put together, are what the query stands for: from the
/// first on they show the messages in order, none twice and none left out, and
/// once a page says that there is no more, all of them have been shown. The
/// pages may differ in how much they hold, and messages may be filed between
/// them: what counts is the archive as it was when the first page was read.
pub proof fn law_query_pages_join(r: Request, a: Archive, pages: Seq<Page>, all: Seq<Filed>)
    requires
        r.is_sound(),
        !r.updates,
        r.snapshot <= a.top,
        pages.len() > 0,
        chained(r, None, pages),
        forall|i: int|
            0 <= i < pages.len() ==> crate::model::grown(a, (#[trigger] pages[i]).archive),
        crate::model::lists(a, r.clauses(None), r.order(), all),
    ensures
        joined(pages).len() <= all.len(),
        joined(pages) == crate::model::rows_of(all.take(joined(pages).len() as int)),
        !has_more(pages.last()) ==> joined(pages) == crate::model::rows_of(all),
        forall|i: int|
            0 <= i < pages.len() ==> shown(#[trigger] pages[i]).len() <= crate::query::query_limit(
                pages[i].p,
            ),
{
    lemma_pages_join(r, a, None, pages, all);
    assert(all.take(all.len() as int) =~= all);
}

proof fn lemma_where_newer_begins(s: Seq<Filed>, top: int) -> (n: int)
    requires
        forall|i: int, k: int|
            0 <= i < k < s.len() ==> crate::model::stands_before(
                Order::AsFiled,
                #[trigger] s[i],
                #[trigger] s[k],
            ),
    ensures
        0 <= n <= s.len(),
        forall|i: int| 0 <= i < n ==> (#[trigger] s[i]).seq <= top,
        forall|i: int| n <= i < s.len() ==> (#[trigger] s[i]).seq > top,
    decreases s.len(),
{
    if s.len() == 0 {
        0
    } else if s.last().seq <= top {
        assert forall|i: int| 0 <= i < s.len() implies (#[trigger] s[i]).seq <= top by {
            if i < s.len() - 1 {
                assert(crate::model::stands_before(Order::AsFiled, s[i], s[s.len() - 1]));
            }
        }
        s.len() as int
    } else {
        let front = s.drop_last();
        assert forall|i: int, k: int| 0 <= i < k < front.len() implies crate::model::stands_before(
            Order::AsFiled,
            #[trigger] front[i],
            #[trigger] front[k],
        ) by {
            assert(front[i] == s[i] && front[k] == s[k]);
        }
        let n = lemma_where_newer_begins(front, top);
        assert forall|i: int| 0 <= i < n implies (#[trigger] s[i]).seq <= top by {
            assert(front[i] == s[i]);
        }
        assert forall|i: int| n <= i < s.len() implies (#[trigger] s[i]).seq > top by {
            if i < front.len() {
                assert(front[i] == s[i]);
            }
        }
        n
    }
}

proof fn lemma_growth_comes_last(
    a: Archive,
    z: Archive,
    clauses: Seq<ClauseV>,
    s: Seq<Filed>,
    t: Seq<Filed>,
)
    requires
        crate::model::sound(a),
        crate::model::grown(a, z),
        crate::model::lists(a, clauses, Order::AsFiled, s),
        crate::model::lists(z, clauses, Order::AsFiled, t),
    ensures
        s.len() <= t.len(),
        s == t.take(s.len() as int),
{
    let n = lemma_where_newer_begins(t, a.top);
    let u = t.take(n);
    let size = a.messages.len() as int;
    assert forall|m: Filed| crate::model::fits(a, clauses, m) == crate::model::fits(
        z,
        clauses,
        m,
    ) by {
        assert forall|i: int| 0 <= i < clauses.len() implies crate::model::admits(
            a,
            #[trigger] clauses[i],
            m,
        ) == crate::model::admits(z, clauses[i], m) by {}
    }
    assert forall|i: int| 0 <= i < size implies a.messages[i] == #[trigger] z.messages[i] by {
        assert(z.messages.take(size)[i] == z.messages[i]);
    }
    assert forall|m: Filed| s.contains(m) <==> #[trigger] u.contains(m) by {
        if s.contains(m) {
            let i = choose|i: int| 0 <= i < s.len() && s[i] == m;
            assert(a.messages.contains(s[i]));
            let k = choose|k: int| 0 <= k < a.messages.len() && a.messages[k] == m;
            assert(z.messages[k] == m);
            assert(crate::model::fits(z, clauses, z.messages[k]));
            assert(t.contains(m));
            let j = choose|j: int| 0 <= j < t.len() && t[j] == m;
            assert(a.messages[k].seq <= a.top);
            assert(u[j] == m);
        }
        if u.contains(m) {
            let j = choose|j: int| 0 <= j < u.len() && u[j] == m;
            assert(t[j] == m);
            assert(z.messages.contains(t[j]));
            let k = choose|k: int| 0 <= k < z.messages.len() && z.messages[k] == m;
            if k >= size {
                assert(z.messages[k].seq > a.top);
            }
            assert(a.messages[k] == m);
            assert(crate::model::fits(a, clauses, a.messages[k]));
        }
    }
    assert forall|i: int, k: int| 0 <= i < k < u.len() implies crate::model::stands_before(
        Order::AsFiled,
        #[trigger] u[i],
        #[trigger] u[k],
    ) by {
        assert(u[i] == t[i] && u[k] == t[k]);
    }
    crate::model::lemma_ordered_alike(Order::AsFiled, s, u);
}

proof fn lemma_updates_join(
    r: Request,
    z: Archive,
    start: Option<CursorV>,
    pages: Seq<Page>,
    all: Seq<Filed>,
)
    requires
        r.is_sound(),
        r.updates,
        pages.len() > 0,
        chained(r, start, pages),
        forall|i: int|
            0 <= i < pages.len() ==> crate::model::sound((#[trigger] pages[i]).archive)
                && crate::model::grown(pages[i].archive, z),
        crate::model::lists(z, r.clauses(start), r.order(), all),
    ensures
        joined(pages).len() <= all.len(),
        joined(pages) == crate::model::rows_of(all.take(joined(pages).len() as int)),
        !has_more(pages.last()) && pages.last().archive == z ==> joined(pages).len() == all.len(),
        forall|old: Option<CursorV>| #[trigger]
            goes_on(r, pages.last(), old) ==> crate::model::lists(
                z,
                r.clauses(old),
                r.order(),
                all.skip(joined(pages).len() as int),
            ),
    decreases pages.len(),
{
    let front = pages.drop_last();
    let page = pages.last();
    let before = joined(front);
    if front.len() > 0 {
        lemma_front_is_chained(r, start, pages);
        assert forall|i: int| 0 <= i < front.len() implies crate::model::sound(
            (#[trigger] front[i]).archive,
        ) && crate::model::grown(front[i].archive, z) by {
            assert(front[i] == pages[i]);
        }
        lemma_updates_join(r, z, start, front, all);
    } else {
        assert(before =~= crate::model::rows_of(all.take(0)));
        assert(all.skip(0) =~= all);
        assert(pages[0] == page);
    }
    let rest = all.skip(before.len() as int);
    assert(crate::model::lists(z, r.clauses(page.old), r.order(), rest));
    assert(is_page(r, pages[pages.len() - 1]));
    let s = lemma_list_of_page(r, page);
    assert(crate::model::grown(pages[pages.len() - 1].archive, z));
    lemma_growth_comes_last(page.archive, z, r.clauses(page.old), s, rest);
    if page.archive == z {
        crate::model::lemma_lists_alike(z, r.clauses(page.old), r.order(), s, rest);
    }
    lemma_page_takes_from_the_list(r, z, page, s, rest);
    lemma_joined_grows(all, before, shown(page));
}

/// The pages of updates, put together, are what was filed since a cursor: they
/// show it in the order in which it was filed, none twice and none left out,
/// whatever was filed between them, and once a page says that there is no more,
/// all that is new in the archive at that time has been shown.
pub proof fn law_update_pages_join(
    r: Request,
    start: Option<CursorV>,
    pages: Seq<Page>,
    all: Seq<Filed>,
)
    requires
        r.is_sound(),
        r.updates,
        pages.len() > 0,
        chained(r, start, pages),
        forall|i: int|
            0 <= i < pages.len() ==> crate::model::sound((#[trigger] pages[i]).archive)
                && crate::model::grown(pages[i].archive, pages.last().archive),
        crate::model::lists(pages.last().archive, r.clauses(start), Order::AsFiled, all),
    ensures
        joined(pages).len() <= all.len(),
        joined(pages) == crate::model::rows_of(all.take(joined(pages).len() as int)),
        !has_more(pages.last()) ==> joined(pages) == crate::model::rows_of(all),
        forall|i: int|
            0 <= i < pages.len() ==> shown(#[trigger] pages[i]).len() <= crate::query::query_limit(
                pages[i].p,
            ),
{
    lemma_updates_join(r, pages.last().archive, start, pages, all);
    assert(all.take(all.len() as int) =~= all);
}

/// The cursor that a page hands back leads on behind it: the same request, paged
/// in any way, that presents it while permissions are the same is planned behind
/// the place where the page stopped, and sees what the page saw.
pub proof fn law_cursor_leads_on(
    index: IndexV,
    r: Request,
    page: JsonV,
    q: JsonV,
    generation: i64,
    newest: i64,
    time: i64,
    id: Seq<char>,
)
    requires
        crate::index::hands_back(
            index,
            page,
            crate::query::query_scope(r.p, r.updates),
            r.snapshot,
            generation,
            Some((time, id)),
        ),
        crate::query::canonical(q) == crate::query::canonical(r.p),
        q.at("cursor"@) == page.at("next_cursor"@),
        r.updates ==> r.snapshot == i64::MAX,
    ensures
        ({
            let c = CursorV {
                account: index.account,
                generation,
                scope: crate::query::query_scope(r.p, r.updates),
                snapshot: r.snapshot,
                time,
                id,
            };
            let plan = crate::query::planned_query(
                q,
                r.updates,
                r.conversation,
                r.snapshot,
                Some(c),
                r.found,
            );
            let step = crate::index::query_planned(
                index,
                q,
                r.updates,
                r.conversation,
                "ready"@,
                generation,
                newest,
                r.found,
            );
            match plan {
                Ok(query) => step is Ask && step->script[0] == StatementV::Messages(query),
                Err(e) => step == crate::index::refused(e),
            }
        }),
{
    crate::query::law_paging_changes_no_request(
        q,
        r.p,
        r.updates,
        r.conversation,
        r.snapshot,
        None,
        r.found,
    );
    let token = page.at("next_cursor"@)->Str_0;
    assert(q.text_at("cursor"@) == token);
    assert(token.len() > 0) by {
        if token.len() == 0 {
            assert(crate::cursor::halves(token) is None);
        }
    }
}

// ------------------------------------------------------------------ members

/// One page of members: the archive as it was when the page was read, the
/// request, the member that it goes on behind, and the members that were found.
pub struct MemberPage {
    pub archive: Archive,
    pub p: JsonV,
    pub after: Seq<char>,
    pub ids: Seq<Seq<char>>,
}

/// The members that a page shows.
pub open spec fn shown_members(page: MemberPage) -> Seq<Seq<char>> {
    crate::index::shown_ids(page.ids, crate::index::members_limit(page.p))
}

/// Whether a page says that there is more, and hands back a cursor.
pub open spec fn has_more_members(page: MemberPage) -> bool {
    page.ids.len() > crate::index::members_limit(page.p)
}

/// What pages show, one after another.
pub open spec fn joined_members(pages: Seq<MemberPage>) -> Seq<Seq<char>>
    decreases pages.len(),
{
    if pages.len() == 0 {
        Seq::empty()
    } else {
        joined_members(pages.drop_last()) + shown_members(pages.last())
    }
}

/// Whether a page is a true answer to the question that a request for members
/// asks.
pub open spec fn is_member_page(
    conversation: Seq<char>,
    snapshot: i64,
    query: Seq<char>,
    page: MemberPage,
) -> bool {
    crate::model::tells(
        page.archive,
        crate::sql::st(
            crate::sql::Form::MemberPage,
            seq![
                SqlV::Text(conversation),
                SqlV::Text(page.after),
                SqlV::Int(snapshot),
                SqlV::Text(query),
                SqlV::Int((crate::index::members_limit(page.p) + 1) as i64),
            ],
        ),
        AnswerV::Texts(page.ids),
    )
}

/// Whether pages follow one another from the first on: each goes on behind the
/// last member of the page before it, which said that there is more.
pub open spec fn members_chained(
    conversation: Seq<char>,
    snapshot: i64,
    query: Seq<char>,
    pages: Seq<MemberPage>,
) -> bool {
    &&& forall|i: int|
        0 <= i < pages.len() ==> is_member_page(conversation, snapshot, query, #[trigger] pages[i])
    &&& pages.len() > 0 ==> pages[0].after == Seq::<char>::empty()
    &&& forall|i: int, k: int|
        0 <= i < pages.len() && k == i + 1 && k < pages.len() ==> has_more_members(
            #[trigger] pages[i],
        ) && (#[trigger] pages[k]).after == shown_members(pages[i]).last()
}

/// Whether the members of an archive have only been added to, above a row.
pub open spec fn members_grown(a: Archive, b: Archive, snapshot: i64) -> bool {
    &&& b.members.len() >= a.members.len()
    &&& b.members.take(a.members.len() as int) == a.members
    &&& forall|i: int|
        a.members.len() <= i < b.members.len() ==> (#[trigger] b.members[i]).rowid > snapshot
}

proof fn lemma_members_alike(s: Seq<Seq<char>>, t: Seq<Seq<char>>)
    requires
        forall|i: int, k: int|
            0 <= i < k < s.len() ==> crate::text::text_lt(#[trigger] s[i], #[trigger] s[k]),
        forall|i: int, k: int|
            0 <= i < k < t.len() ==> crate::text::text_lt(#[trigger] t[i], #[trigger] t[k]),
        forall|id: Seq<char>| s.contains(id) <==> #[trigger] t.contains(id),
    ensures
        s == t,
    decreases s.len(),
{
    if s.len() == 0 {
        if t.len() > 0 {
            assert(t.contains(t[0]));
        }
        assert(s =~= t);
    } else {
        assert(s.contains(s[s.len() - 1]));
        assert(t.contains(s.last()));
        let k = choose|k: int| 0 <= k < t.len() && t[k] == s.last();
        assert(t.contains(t[t.len() - 1]));
        let j = choose|j: int| 0 <= j < s.len() && s[j] == t.last();
        if k < t.len() - 1 {
            assert(crate::text::text_lt(t[k], t[t.len() - 1]));
            if j < s.len() - 1 {
                assert(crate::text::text_lt(s[j], s[s.len() - 1]));
            }
            crate::text::lemma_text_lt_transitive(s.last(), t.last(), s.last());
            crate::text::lemma_text_lt_irreflexive(s.last());
        }
        let front = s.drop_last();
        let rear = t.drop_last();
        assert forall|id: Seq<char>| front.contains(id) <==> #[trigger] rear.contains(id) by {
            crate::text::lemma_text_lt_irreflexive(id);
            if front.contains(id) {
                let i = choose|i: int| 0 <= i < front.len() && front[i] == id;
                assert(s[i] == id);
                assert(crate::text::text_lt(s[i], s[s.len() - 1]));
                assert(t.contains(id));
                let l = choose|l: int| 0 <= l < t.len() && t[l] == id;
                assert(rear[l] == id);
            }
            if rear.contains(id) {
                let i = choose|i: int| 0 <= i < rear.len() && rear[i] == id;
                assert(t[i] == id);
                assert(crate::text::text_lt(t[i], t[t.len() - 1]));
                assert(t.contains(id));
                assert(s.contains(id));
                let l = choose|l: int| 0 <= l < s.len() && s[l] == id;
                assert(front[l] == id);
            }
        }
        lemma_members_alike(front, rear);
        assert(s =~= front.push(s.last()));
        assert(t =~= rear.push(t.last()));
    }
}

proof fn lemma_one_list_of_members(
    a: Archive,
    conversation: Seq<char>,
    after: Seq<char>,
    snapshot: i64,
    query: Seq<char>,
    s: Seq<Seq<char>>,
    t: Seq<Seq<char>>,
)
    requires
        crate::model::lists_members(a, conversation, after, snapshot, query, s),
        crate::model::lists_members(a, conversation, after, snapshot, query, t),
    ensures
        s == t,
{
    assert forall|id: Seq<char>| s.contains(id) <==> #[trigger] t.contains(id) by {
        if s.contains(id) {
            let i = choose|i: int| 0 <= i < s.len() && s[i] == id;
            assert(crate::text::text_lt(after, s[i]));
        }
        if t.contains(id) {
            let i = choose|i: int| 0 <= i < t.len() && t[i] == id;
            assert(crate::text::text_lt(after, t[i]));
        }
    }
    lemma_members_alike(s, t);
}

proof fn lemma_member_pages_join(
    a: Archive,
    conversation: Seq<char>,
    snapshot: i64,
    query: Seq<char>,
    pages: Seq<MemberPage>,
    all: Seq<Seq<char>>,
)
    requires
        pages.len() > 0,
        members_chained(conversation, snapshot, query, pages),
        forall|i: int|
            0 <= i < pages.len() ==> members_grown(a, (#[trigger] pages[i]).archive, snapshot),
        crate::model::lists_members(a, conversation, Seq::empty(), snapshot, query, all),
    ensures
        joined_members(pages).len() <= all.len(),
        joined_members(pages) == all.take(joined_members(pages).len() as int),
        has_more_members(pages.last()) <==> joined_members(pages).len() < all.len(),
        has_more_members(pages.last()) ==> joined_members(pages).len() > 0
            && joined_members(pages).last() == shown_members(pages.last()).last(),
    decreases pages.len(),
{
    let front = pages.drop_last();
    let page = pages.last();
    let before = joined_members(front);
    let n = before.len() as int;
    assert(page == pages[pages.len() - 1]);
    if front.len() > 0 {
        assert forall|i: int| 0 <= i < front.len() implies members_grown(
            a,
            (#[trigger] front[i]).archive,
            snapshot,
        ) && is_member_page(conversation, snapshot, query, front[i]) by {
            assert(front[i] == pages[i]);
        }
        assert forall|i: int, k: int|
            0 <= i < front.len() && k == i + 1 && k < front.len() implies has_more_members(
            #[trigger] front[i],
        ) && (#[trigger] front[k]).after == shown_members(front[i]).last() by {
            assert(front[i] == pages[i] && front[k] == pages[k]);
        }
        assert(front[0] == pages[0]);
        lemma_member_pages_join(a, conversation, snapshot, query, front, all);
        assert(front.last() == pages[pages.len() - 2]);
        assert(has_more_members(pages[pages.len() - 2]) && pages[pages.len() - 1].after
            == shown_members(pages[pages.len() - 2]).last());
        assert(page.after == all[n - 1]);
        crate::model::law_next_member_page_goes_on(
            a,
            conversation,
            Seq::empty(),
            snapshot,
            query,
            all,
            n,
        );
    } else {
        assert(before =~= all.take(0));
        assert(all.skip(0) =~= all);
        assert(pages[0] == page);
    }
    let rest = all.skip(n);
    assert(crate::model::lists_members(a, conversation, page.after, snapshot, query, rest));
    let limit = crate::index::members_limit(page.p);
    assert(is_member_page(conversation, snapshot, query, page));
    assert(members_grown(a, page.archive, snapshot));
    let args = seq![
        SqlV::Text(conversation),
        SqlV::Text(page.after),
        SqlV::Int(snapshot),
        SqlV::Text(query),
        SqlV::Int((limit + 1) as i64),
    ];
    assert(crate::model::text_arg(args, 0) == conversation);
    assert(crate::model::text_arg(args, 1) == page.after);
    assert(crate::model::int_arg(args, 2) == snapshot);
    assert(crate::model::text_arg(args, 3) == query);
    assert(crate::model::int_arg(args, 4) == limit + 1);
    let s = choose|s: Seq<Seq<char>>| #[trigger]
        crate::model::lists_members(page.archive, conversation, page.after, snapshot, query, s)
            && page.ids == crate::model::first_of(s, limit + 1);
    crate::model::law_member_pages_are_stable(
        a,
        page.archive,
        conversation,
        page.after,
        snapshot,
        query,
        s,
    );
    lemma_one_list_of_members(a, conversation, page.after, snapshot, query, s, rest);
    assert(shown_members(page) =~= crate::model::first_of(rest, limit));
    assert(joined_members(pages) =~= all.take(joined_members(pages).len() as int));
}

/// The pages of members, put together, are the members that were known when the
/// first page was read and that have an identifier: they rise strictly, so that
/// none is shown twice, and none is left out. Each page holds no more than it
/// was asked for, and says that there is more, with a cursor to go on from,
/// exactly while not all have been shown.
pub proof fn law_member_pages_join(
    a: Archive,
    conversation: Seq<char>,
    snapshot: i64,
    query: Seq<char>,
    pages: Seq<MemberPage>,
    all: Seq<Seq<char>>,
)
    requires
        pages.len() > 0,
        members_chained(conversation, snapshot, query, pages),
        forall|i: int|
            0 <= i < pages.len() ==> members_grown(a, (#[trigger] pages[i]).archive, snapshot),
        crate::model::lists_members(a, conversation, Seq::empty(), snapshot, query, all),
    ensures
        joined_members(pages) == all.take(joined_members(pages).len() as int),
        has_more_members(pages.last()) <==> joined_members(pages) != all,
        forall|i: int, k: int|
            0 <= i < k < joined_members(pages).len() ==> crate::text::text_lt(
                #[trigger] joined_members(pages)[i],
                #[trigger] joined_members(pages)[k],
            ),
        forall|id: Seq<char>| #[trigger]
            all.contains(id) <==> id.len() > 0 && crate::model::is_member(
                a,
                conversation,
                snapshot,
                query,
                id,
            ),
        forall|i: int|
            0 <= i < pages.len() ==> shown_members(#[trigger] pages[i]).len()
                <= crate::index::members_limit(pages[i].p),
{
    lemma_member_pages_join(a, conversation, snapshot, query, pages, all);
    let so_far = joined_members(pages);
    assert(all.take(all.len() as int) =~= all);
    assert forall|i: int, k: int| 0 <= i < k < so_far.len() implies crate::text::text_lt(
        #[trigger] so_far[i],
        #[trigger] so_far[k],
    ) by {
        assert(so_far[i] == all[i] && so_far[k] == all[k]);
    }
    assert forall|id: Seq<char>| #[trigger] all.contains(id) <==> id.len() > 0
        && crate::model::is_member(a, conversation, snapshot, query, id) by {
        if all.contains(id) {
            let i = choose|i: int| 0 <= i < all.len() && all[i] == id;
            assert(crate::text::text_lt(Seq::empty(), all[i]));
            crate::text::lemma_text_lt_irreflexive(Seq::empty());
            if id.len() == 0 {
                assert(id =~= Seq::empty());
            }
        }
        if id.len() > 0 {
            assert(crate::text::text_lt(Seq::empty(), id));
        }
    }
}

/// The cursor that a page of members hands back leads on behind it: with it, the
/// same request asks for the members behind the last one shown, as they were
/// when the first page was read.
pub proof fn law_member_cursor_leads_on(
    index: IndexV,
    page: JsonV,
    q: JsonV,
    conversation: Seq<char>,
    snapshot: i64,
    generation: i64,
    newest: i64,
    last: Seq<char>,
)
    requires
        crate::index::hands_back(
            index,
            page,
            crate::query::members_scope(conversation, q.text_at("query"@)),
            snapshot,
            generation,
            Some((0, last)),
        ),
        q.at("cursor"@) == page.at("next_cursor"@),
    ensures
        crate::index::members_planned(
            index,
            q,
            conversation,
            generation,
            newest,
        ) matches StepV::Ask { script, .. } && script == seq![
            crate::sql::st(
                crate::sql::Form::MemberPage,
                seq![
                    SqlV::Text(conversation),
                    SqlV::Text(last),
                    SqlV::Int(snapshot),
                    SqlV::Text(q.text_at("query"@)),
                    SqlV::Int((crate::index::members_limit(q) + 1) as i64),
                ],
            ),
        ],
{
    let token = page.at("next_cursor"@)->Str_0;
    assert(q.text_at("cursor"@) == token);
    assert(token.len() > 0) by {
        if token.len() == 0 {
            assert(crate::cursor::halves(token) is None);
        }
    }
}

/// The cursor of a page of members is there exactly where there is more, and
/// the page shows the members that were found, each once.
pub proof fn law_member_page_has_a_cursor_for_more(
    index: IndexV,
    ids: Seq<Seq<char>>,
    more: bool,
    scope: Seq<char>,
    snapshot: i64,
    answers: Seq<AnswerV>,
)
    ensures
        ({
            let page = crate::index::members_page(index, ids, more, scope, snapshot, answers);
            &&& page.at("has_more"@) == JsonV::Bool(more)
            &&& page.at("next_cursor"@) is Str <==> more
            &&& page.at("next_cursor"@) == JsonV::Null <==> !more
            &&& page.at("items"@).as_items() matches Some(items) && items.len() == ids.len() && (
            forall|i: int|
                0 <= i < ids.len() ==> (#[trigger] items[i]).at("member_id"@) == JsonV::Str(ids[i]))
        }),
{
    reveal_strlit("items");
    reveal_strlit("has_more");
    reveal_strlit("next_cursor");
    reveal_strlit("member_id");
    assert("items"@.len() == 5 && "has_more"@.len() == 8 && "next_cursor"@.len() == 11);
    reveal_with_fuel(crate::json::member, 4);
    let page = crate::index::members_page(index, ids, more, scope, snapshot, answers);
    let o = page->Obj_0;
    assert(o.skip(1)[0] == o[1] && o.skip(1).skip(1)[0] == o[2]);
    let items = page.at("items"@)->Arr_0;
    assert forall|i: int| 0 <= i < ids.len() implies (#[trigger] items[i]).at("member_id"@)
        == JsonV::Str(ids[i]) by {
        assert(items[i] == crate::index::listed_member(ids[i], answers[i]->Texts_0));
    }
}

// ------------------------------------------------------------------ history

/// One read by row numbers: the row that it goes on behind, how many rows it may
/// hold, and the rows that it found.
pub struct Read {
    pub after: i64,
    pub cap: int,
    pub rows: Seq<i64>,
}

/// What reads find, one after another.
pub open spec fn joined_reads(reads: Seq<Read>) -> Seq<i64>
    decreases reads.len(),
{
    if reads.len() == 0 {
        Seq::empty()
    } else {
        joined_reads(reads.drop_last()) + reads.last().rows
    }
}

/// Whether reads follow one another: each finds the first rows behind its place,
/// and goes on behind the last row of the read before it, or at the same place
/// where that read found none.
pub open spec fn reads_chained(t: Seq<i64>, start: i64, reads: Seq<Read>) -> bool {
    &&& forall|i: int|
        0 <= i < reads.len() ==> (#[trigger] reads[i]).cap > 0 && reads[i].rows
            == crate::model::first_of(crate::source::beyond(t, reads[i].after), reads[i].cap)
    &&& reads.len() > 0 ==> reads[0].after == start
    &&& forall|i: int, k: int|
        0 <= i < reads.len() && k == i + 1 && k < reads.len() ==> (#[trigger] reads[k]).after == if (
        #[trigger] reads[i]).rows.len() > 0 {
            reads[i].rows.last()
        } else {
            reads[i].after
        }
}

proof fn lemma_reads_join(t: Seq<i64>, start: i64, reads: Seq<Read>)
    requires
        crate::source::rising(t),
        reads.len() > 0,
        reads_chained(t, start, reads),
    ensures
        ({
            let all = crate::source::beyond(t, start);
            let last = reads.last();
            &&& joined_reads(reads).len() <= all.len()
            &&& joined_reads(reads) == all.take(joined_reads(reads).len() as int)
            &&& last.rows.len() < last.cap ==> joined_reads(reads) == all
            &&& crate::source::beyond(
                t,
                if last.rows.len() > 0 {
                    last.rows.last()
                } else {
                    last.after
                },
            ) == all.skip(joined_reads(reads).len() as int)
        }),
    decreases reads.len(),
{
    let all = crate::source::beyond(t, start);
    let front = reads.drop_last();
    let read = reads.last();
    let before = joined_reads(front);
    assert(read == reads[reads.len() - 1]);
    if front.len() > 0 {
        assert forall|i: int| 0 <= i < front.len() implies (#[trigger] front[i]).cap > 0
            && front[i].rows == crate::model::first_of(
            crate::source::beyond(t, front[i].after),
            front[i].cap,
        ) by {
            assert(front[i] == reads[i]);
        }
        assert forall|i: int, k: int|
            0 <= i < front.len() && k == i + 1 && k < front.len() implies (
        #[trigger] front[k]).after == if (#[trigger] front[i]).rows.len() > 0 {
            front[i].rows.last()
        } else {
            front[i].after
        } by {
            assert(front[i] == reads[i] && front[k] == reads[k]);
        }
        assert(front[0] == reads[0]);
        lemma_reads_join(t, start, front);
        assert(front.last() == reads[reads.len() - 2]);
        assert(reads[reads.len() - 1].after == if reads[reads.len() - 2].rows.len() > 0 {
            reads[reads.len() - 2].rows.last()
        } else {
            reads[reads.len() - 2].after
        });
    } else {
        assert(before =~= all.take(0));
        assert(all.skip(0) =~= all);
        assert(reads[0] == read);
    }
    let rest = crate::source::beyond(t, read.after);
    assert(rest == all.skip(before.len() as int));
    assert(read.rows =~= rest.take(
        if rest.len() < read.cap {
            rest.len() as int
        } else {
            read.cap
        },
    ));
    crate::source::law_history_pages_go_on(t, read.after, read.rows, read.cap);
    assert(joined_reads(reads) =~= all.take(joined_reads(reads).len() as int));
    assert(rest.skip(read.rows.len() as int) =~= all.skip(joined_reads(reads).len() as int));
    if read.rows.len() == 0 {
        assert(rest.skip(0) =~= rest);
    }
    if read.rows.len() < read.cap {
        assert(joined_reads(reads) =~= all);
    }
}

/// Reads by row numbers, put together, are the rows behind the place where they
/// began: in order, none twice and none left out, whatever each may hold, and
/// once a read is not full, all of them have been read.
pub proof fn law_history_reads_join(t: Seq<i64>, start: i64, reads: Seq<Read>)
    requires
        crate::source::rising(t),
        reads.len() > 0,
        reads_chained(t, start, reads),
    ensures
        joined_reads(reads).len() <= crate::source::beyond(t, start).len(),
        joined_reads(reads) == crate::source::beyond(t, start).take(
            joined_reads(reads).len() as int,
        ),
        reads.last().rows.len() < reads.last().cap ==> joined_reads(reads)
            == crate::source::beyond(t, start),
{
    lemma_reads_join(t, start, reads);
}

} // verus!
