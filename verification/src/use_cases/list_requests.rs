//! Listing requests that a caller may see.

use vstd::prelude::*;

use crate::domain::{
    group_texts, selector_texts, AuthUser, Permission, Request, RequestStatus, Workflow,
};
use crate::error::{AppError, AuthzError, AuthzView, ErrorView};
use crate::text::{list_holds, holds_text, same_text, texts};
use crate::time::Timestamp;

verus! {

/// How many requests are listed where the caller does not say.
pub const DEFAULT_LIST_LIMIT: u32 = 50;

/// How many requests are listed at most.
pub const MAX_LIST_LIMIT: u32 = 100;

/// The use case.
pub struct ListRequests {}

/// What a caller asks for.
pub struct ListRequestsInput {
    pub limit: Option<u32>,
    pub offset: Option<u32>,
    pub status: Option<String>,
    pub user: Option<String>,
    pub pending_for_me: Option<bool>,
}

/// A page of requests.
pub struct ListRequestsOutput {
    pub requests: Vec<RequestSummary>,
    pub total: u32,
    pub limit: u32,
    pub offset: u32,
}

/// A request in a list.
pub struct RequestSummary {
    pub id: String,
    pub requester: String,
    pub database: String,
    pub environment: String,
    pub operation: String,
    pub status: String,
    pub created_at: Timestamp,
    pub current_step: Option<u32>,
    pub total_steps: Option<u32>,
    pub next_approvers: Vec<String>,
}

/// How many requests are listed.
pub open spec fn page_limit(limit: Option<u32>) -> u32 {
    let wanted = match limit {
        Some(n) => n,
        None => DEFAULT_LIST_LIMIT,
    };
    if wanted <= MAX_LIST_LIMIT {
        wanted
    } else {
        MAX_LIST_LIMIT
    }
}

/// Where the page starts.
pub open spec fn page_offset(offset: Option<u32>) -> u32 {
    match offset {
        Some(n) => n,
        None => 0,
    }
}

/// The selectors of the first step.
pub open spec fn first_approvers(wf: Workflow) -> Seq<Seq<char>> {
    if wf.steps@.len() > 0 {
        selector_texts(wf.steps@[0].approvers@)
    } else {
        Seq::<Seq<char>>::empty()
    }
}

/// Whether `s` lists the request. The progress of a pending request is read off
/// its workflow alone: how many steps there are and who approves the first; no
/// current step is given.
pub open spec fn summarizes(s: RequestSummary, q: Request, workflow: Option<Workflow>) -> bool {
    &&& s.id == q.id
    &&& s.requester == q.requester
    &&& s.database == q.database
    &&& s.environment == q.environment
    &&& s.operation@ == q.operation.text()
    &&& s.status@ == q.status.text()
    &&& s.created_at == q.created_at
    &&& s.current_step is None
    &&& if q.status is Pending && workflow is Some {
        &&& s.total_steps == Some(workflow->0.steps@.len() as u32)
        &&& texts(s.next_approvers@) == first_approvers(workflow->0)
    } else {
        &&& s.total_steps is None
        &&& s.next_approvers@.len() == 0
    }
}

impl RequestSummary {
    /// Lists a request, given its workflow where it can be read.
    pub fn from_request(q: &Request, workflow: &Option<Workflow>) -> (r: RequestSummary)
        ensures
            summarizes(r, *q, *workflow),
    {
        let mut total_steps: Option<u32> = None;
        let mut next_approvers: Vec<String> = Vec::new();
        if q.status == RequestStatus::Pending {
            match workflow {
                Some(wf) => {
                    total_steps = Some(#[verifier::truncate] (wf.steps.len() as u32));
                    if wf.steps.len() > 0 {
                        next_approvers = group_texts(&wf.steps[0].approvers);
                    } else {
                        assert(texts(next_approvers@) =~= Seq::<Seq<char>>::empty());
                    }
                },
                None => {},
            }
        }
        RequestSummary {
            id: q.id.clone(),
            requester: q.requester.clone(),
            database: q.database.clone(),
            environment: q.environment.clone(),
            operation: q.operation.as_str().to_string(),
            status: q.status.as_str().to_string(),
            created_at: q.created_at,
            current_step: None,
            total_steps,
            next_approvers,
        }
    }
}

/// Due: whether the caller has `RequestView` and, where `pending_for_me`,
/// whether the caller has `RequestApprove`.
pub struct ListStart {
    pub user: AuthUser,
    pub status: Option<String>,
    pub filter_user: Option<String>,
    pub pending_for_me: bool,
    pub limit: u32,
    pub offset: u32,
}

/// Which requests are looked for.
pub enum ListStep {
    /// Due: the pending requests that the caller approves, by identity, groups
    /// or roles.
    Pending(ListPending),
    /// Due: all requests with the status and requester.
    All(ListAll),
}

/// Due: the pending requests that the user approves.
pub struct ListPending {
    pub user: AuthUser,
    pub page: ListPage,
}

/// A page that is looked for.
pub struct ListPage {
    pub limit: u32,
    pub offset: u32,
}

/// All requests are looked for; a caller who is no administrator then sees only
/// some.
pub struct ListAll {
    pub user: AuthUser,
    pub status: Option<String>,
    pub is_admin: bool,
    pub filter_user: Option<String>,
    pub page: ListPage,
}

/// What a list of all requests leads to.
pub enum ListAllStep {
    Done(ListRequestsOutput),
    /// Due: the requests with the status that the caller sees, by identity,
    /// groups or roles.
    Visible(ListVisible),
}

/// Due: the requests that the caller sees.
pub struct ListVisible {
    pub user: AuthUser,
    pub status: Option<String>,
    pub filter_user: Option<String>,
    pub page: ListPage,
}

impl ListRequests {
    /// Starts a list.
    pub fn execute(&self, input: ListRequestsInput, user: AuthUser) -> (r: ListStart)
        ensures
            r.user == user,
            r.status == input.status,
            r.filter_user == input.user,
            r.pending_for_me == (input.pending_for_me == Some(true)),
            r.limit == page_limit(input.limit),
            r.offset == page_offset(input.offset),
    {
        let wanted: u32 = match input.limit {
            Some(n) => n,
            None => DEFAULT_LIST_LIMIT,
        };
        let limit: u32 = if wanted <= MAX_LIST_LIMIT {
            wanted
        } else {
            MAX_LIST_LIMIT
        };
        let offset: u32 = match input.offset {
            Some(n) => n,
            None => 0,
        };
        let pending_for_me: bool = match input.pending_for_me {
            Some(b) => b,
            None => false,
        };
        ListStart {
            user,
            status: input.status,
            filter_user: input.user,
            pending_for_me,
            limit,
            offset,
        }
    }
}

impl ListStart {
    /// Takes the answers of the authorizer. Either permission is enough for the
    /// requests that wait for the caller; `can_approve` counts only there.
    pub fn authorized(self, view: Result<(), AuthzError>, can_approve: bool) -> (r: Result<
        ListStep,
        AppError,
    >)
        ensures
            if self.pending_for_me {
                if view is Ok || can_approve {
                    r matches Ok(ListStep::Pending(p)) && p.user == self.user && p.page.limit
                        == self.limit && p.page.offset == self.offset
                } else {
                    r matches Err(e) && e@ == ErrorView::Forbidden(
                        AuthzView::Forbidden {
                            permission: Permission::RequestView,
                            reason: "requires RequestView or RequestApprove"@,
                        },
                    )
                }
            } else {
                match view {
                    Err(e) => r matches Err(x) && x@ == ErrorView::Forbidden(e@),
                    Ok(_) => r matches Ok(ListStep::All(a)) && {
                        &&& a.user == self.user
                        &&& a.status == self.status
                        &&& a.is_admin == holds_text(self.user.roles@, "admin"@)
                        &&& a.filter_user == self.filter_user
                        &&& a.page.limit == self.limit
                        &&& a.page.offset == self.offset
                    },
                }
            },
    {
        let page = ListPage { limit: self.limit, offset: self.offset };
        if self.pending_for_me {
            if view.is_err() && !can_approve {
                return Err(
                    AppError::Forbidden(
                        AuthzError::Forbidden {
                            permission: Permission::RequestView,
                            reason: "requires RequestView or RequestApprove".to_string(),
                        },
                    ),
                );
            }
            return Ok(ListStep::Pending(ListPending { user: self.user, page }));
        }
        match view {
            Err(e) => Err(AppError::Forbidden(e)),
            Ok(_) => {
                let is_admin: bool = list_holds(&self.user.roles, "admin");
                Ok(
                    ListStep::All(
                        ListAll {
                            user: self.user,
                            status: self.status,
                            is_admin,
                            filter_user: self.filter_user,
                            page,
                        },
                    ),
                )
            },
        }
    }
}

/// Whether `items` list the requests in order.
pub open spec fn lists(
    items: Seq<RequestSummary>,
    requests: Seq<Request>,
    workflows: Seq<Option<Workflow>>,
) -> bool {
    &&& items.len() == requests.len()
    &&& forall|k: int|
        0 <= k < items.len() ==> summarizes(#[trigger] items[k], requests[k], workflows[k])
}

/// The places of the requests of one requester, in order; all places where no
/// requester is given.
pub open spec fn places_of(requests: Seq<Request>, user: Option<String>) -> Seq<int>
    decreases requests.len(),
{
    if requests.len() == 0 {
        seq![]
    } else {
        let rest = places_of(requests.drop_last(), user);
        if user is None || requests.last().requester@ == user->0@ {
            rest.push(requests.len() - 1)
        } else {
            rest
        }
    }
}

/// Every place is one of a request.
proof fn lemma_places_in_range(requests: Seq<Request>, user: Option<String>)
    ensures
        forall|k: int|
            0 <= k < places_of(requests, user).len() ==> 0 <= #[trigger] places_of(
                requests,
                user,
            )[k] < requests.len(),
        places_of(requests, user).len() <= requests.len(),
    decreases requests.len(),
{
    if requests.len() > 0 {
        lemma_places_in_range(requests.drop_last(), user);
    }
}

/// Without a requester every place counts.
proof fn lemma_all_places(requests: Seq<Request>)
    ensures
        places_of(requests, None).len() == requests.len(),
        forall|k: int| 0 <= k < requests.len() ==> #[trigger] places_of(requests, None)[k] == k,
    decreases requests.len(),
{
    if requests.len() > 0 {
        lemma_all_places(requests.drop_last());
    }
}

/// Whether `items` list the requests of one requester in order.
pub open spec fn lists_of(
    items: Seq<RequestSummary>,
    requests: Seq<Request>,
    workflows: Seq<Option<Workflow>>,
    user: Option<String>,
) -> bool {
    &&& items.len() == places_of(requests, user).len()
    &&& forall|k: int|
        0 <= k < items.len() ==> summarizes(
            #[trigger] items[k],
            requests[places_of(requests, user)[k]],
            workflows[places_of(requests, user)[k]],
        )
}

/// Lists the requests of one requester, or all.
fn list_of(requests: &Vec<Request>, workflows: &Vec<Option<Workflow>>, user: &Option<String>) -> (r:
    Vec<RequestSummary>)
    requires
        workflows@.len() == requests@.len(),
    ensures
        lists_of(r@, requests@, workflows@, *user),
        *user is None ==> lists(r@, requests@, workflows@),
{
    let mut out: Vec<RequestSummary> = Vec::new();
    let n: usize = requests.len();
    let mut i: usize = 0;
    while i < n
        invariant
            i <= n,
            n == requests@.len(),
            n == workflows@.len(),
            out@.len() == places_of(requests@.take(i as int), *user).len(),
            forall|k: int|
                0 <= k < out@.len() ==> summarizes(
                    #[trigger] out@[k],
                    requests@[places_of(requests@.take(i as int), *user)[k]],
                    workflows@[places_of(requests@.take(i as int), *user)[k]],
                ),
        decreases n - i,
    {
        proof {
            assert(requests@.take(i + 1).drop_last() =~= requests@.take(i as int));
            assert(requests@.take(i + 1).last() == requests@[i as int]);
        }
        let wanted: bool = match user {
            Some(u) => same_text(requests[i].requester.as_str(), u.as_str()),
            None => true,
        };
        if wanted {
            out.push(RequestSummary::from_request(&requests[i], &workflows[i]));
        }
        i += 1;
    }
    proof {
        assert(requests@.take(n as int) =~= requests@);
        if *user is None {
            lemma_all_places(requests@);
            assert forall|k: int| 0 <= k < out@.len() implies summarizes(
                #[trigger] out@[k],
                requests@[k],
                workflows@[k],
            ) by {
                assert(places_of(requests@, *user)[k] == k);
            }
        }
    }
    out
}

/// Whether a page holds the listed requests.
pub open spec fn page_of(
    out: ListRequestsOutput,
    page: ListPage,
    requests: Seq<Request>,
    workflows: Seq<Option<Workflow>>,
    total: u32,
) -> bool {
    &&& lists(out.requests@, requests, workflows)
    &&& out.total == total
    &&& out.limit == page.limit
    &&& out.offset == page.offset
}

impl ListPage {
    /// Takes the requests, for each its workflow where it can be read, and how
    /// many there are in all.
    pub fn listed(
        self,
        requests: &Vec<Request>,
        workflows: &Vec<Option<Workflow>>,
        total: u32,
    ) -> (r: ListRequestsOutput)
        requires
            workflows@.len() == requests@.len(),
        ensures
            page_of(r, self, requests@, workflows@, total),
    {
        ListRequestsOutput {
            requests: list_of(requests, workflows, &None),
            total,
            limit: self.limit,
            offset: self.offset,
        }
    }
}

impl ListAll {
    /// Takes the requests, for each its workflow where it can be read, and how
    /// many there are in all. Only an administrator sees them.
    pub fn listed(
        self,
        requests: &Vec<Request>,
        workflows: &Vec<Option<Workflow>>,
        total: u32,
    ) -> (r: ListAllStep)
        requires
            workflows@.len() == requests@.len(),
        ensures
            if self.is_admin {
                r matches ListAllStep::Done(out) && page_of(
                    out,
                    self.page,
                    requests@,
                    workflows@,
                    total,
                )
            } else {
                r matches ListAllStep::Visible(v) && v.user == self.user && v.status == self.status
                    && v.filter_user == self.filter_user && v.page == self.page
            },
    {
        if self.is_admin {
            ListAllStep::Done(self.page.listed(requests, workflows, total))
        } else {
            ListAllStep::Visible(
                ListVisible {
                    user: self.user,
                    status: self.status,
                    filter_user: self.filter_user,
                    page: self.page,
                },
            )
        }
    }
}

impl ListVisible {
    /// Takes the requests that the caller sees, for each its workflow where it
    /// can be read, and how many there are in all. Where one requester is asked
    /// for, the total is that of the page.
    pub fn listed(
        self,
        requests: &Vec<Request>,
        workflows: &Vec<Option<Workflow>>,
        total: u32,
    ) -> (r: ListRequestsOutput)
        requires
            workflows@.len() == requests@.len(),
        ensures
            lists_of(r.requests@, requests@, workflows@, self.filter_user),
            r.total == if self.filter_user is Some {
                r.requests@.len() as u32
            } else {
                total
            },
            r.limit == self.page.limit,
            r.offset == self.page.offset,
    {
        let items = list_of(requests, workflows, &self.filter_user);
        let total: u32 = if self.filter_user.is_some() {
            #[verifier::truncate]
            (items.len() as u32)
        } else {
            total
        };
        ListRequestsOutput {
            requests: items,
            total,
            limit: self.page.limit,
            offset: self.page.offset,
        }
    }
}

/// A page is never asked to hold more than the cap.
pub proof fn page_is_capped(limit: Option<u32>)
    ensures
        page_limit(limit) <= MAX_LIST_LIMIT,
{
}

/// Where one requester is asked for, no request of another is listed, and none
/// of theirs is left out.
pub proof fn filtered_list_is_theirs(requests: Seq<Request>, user: String, i: int)
    requires
        0 <= i < requests.len(),
    ensures
        places_of(requests, Some(user)).contains(i) <==> requests[i].requester@ == user@,
    decreases requests.len(),
{
    lemma_places_in_range(requests.drop_last(), Some(user));
    let rest = places_of(requests.drop_last(), Some(user));
    let all = places_of(requests, Some(user));
    if i < requests.len() - 1 {
        filtered_list_is_theirs(requests.drop_last(), user, i);
        assert(requests.drop_last()[i] == requests[i]);
        if rest.contains(i) {
            let k = choose|k: int| 0 <= k < rest.len() && rest[k] == i;
            assert(all[k] == i);
        }
        if all.contains(i) {
            let k = choose|k: int| 0 <= k < all.len() && all[k] == i;
            assert(rest[k] == i);
        }
    } else {
        if requests[i].requester@ == user@ {
            assert(all[all.len() - 1] == i);
        } else if all.contains(i) {
            let k = choose|k: int| 0 <= k < all.len() && all[k] == i;
            assert(rest[k] == i);
        }
    }
}

/// A page holds fifty requests where nothing is said, never more than a hundred,
/// and otherwise as many as are asked for; it starts where it is asked to.
pub proof fn pages_hold_what_is_asked_for(
    uc: ListRequests,
    input: ListRequestsInput,
    user: AuthUser,
    r: ListStart,
)
    requires
        call_ensures(ListRequests::execute, (&uc, input, user), r),
    ensures
        input.limit is None ==> r.limit == 50,
        input.limit matches Some(n) ==> (n <= 100 ==> r.limit == n) && (n > 100 ==> r.limit
            == 100),
        input.offset is None ==> r.offset == 0,
        input.offset matches Some(n) ==> r.offset == n,
        r.pending_for_me <==> input.pending_for_me == Some(true),
        r.status == input.status,
        r.filter_user == input.user,
        r.user == user,
{
}

/// What waits for a caller is listed to whoever may view or approve; everything
/// else only to who may view, and unfiltered only to administrators.
pub proof fn lists_need_a_permission(
    stage: ListStart,
    view: Result<(), AuthzError>,
    can_approve: bool,
    r: Result<ListStep, AppError>,
)
    requires
        call_ensures(ListStart::authorized, (stage, view, can_approve), r),
    ensures
        r is Ok <==> view is Ok || stage.pending_for_me && can_approve,
        r is Err ==> r->Err_0 is Forbidden,
        r is Ok ==> (r->Ok_0 is Pending <==> stage.pending_for_me),
        r matches Ok(ListStep::Pending(p)) ==> p.user == stage.user && p.page.limit == stage.limit
            && p.page.offset == stage.offset,
        r matches Ok(ListStep::All(a)) ==> {
            &&& a.user == stage.user
            &&& a.status == stage.status
            &&& a.filter_user == stage.filter_user
            &&& a.page.limit == stage.limit
            &&& a.page.offset == stage.offset
            &&& a.is_admin <==> exists|i: int|
                0 <= i < stage.user.roles@.len() && (#[trigger] stage.user.roles@[i])@ == "admin"@
        },
{
}

/// Only an administrator is listed every request, each in its place; anybody
/// else is listed what they may see.
pub proof fn only_administrators_see_everything(
    stage: ListAll,
    requests: Vec<Request>,
    workflows: Vec<Option<Workflow>>,
    total: u32,
    r: ListAllStep,
    k: int,
)
    requires
        workflows@.len() == requests@.len(),
        call_ensures(ListAll::listed, (stage, &requests, &workflows, total), r),
        0 <= k < requests@.len(),
    ensures
        r is Done <==> stage.is_admin,
        r matches ListAllStep::Done(out) ==> {
            &&& out.requests@.len() == requests@.len()
            &&& out.requests@[k].id == requests@[k].id
            &&& out.requests@[k].requester == requests@[k].requester
            &&& out.total == total
            &&& out.limit == stage.page.limit
            &&& out.offset == stage.page.offset
        },
        r matches ListAllStep::Visible(v) ==> v.user == stage.user && v.status == stage.status
            && v.filter_user == stage.filter_user && v.page == stage.page,
{
    if let ListAllStep::Done(out) = r {
        assert(summarizes(out.requests@[k], requests@[k], workflows@[k]));
    }
}

/// Where one requester is asked for, exactly their requests are listed.
pub proof fn filtered_requests_are_theirs(
    stage: ListVisible,
    requests: Vec<Request>,
    workflows: Vec<Option<Workflow>>,
    total: u32,
    r: ListRequestsOutput,
    k: int,
    i: int,
)
    requires
        workflows@.len() == requests@.len(),
        call_ensures(ListVisible::listed, (stage, &requests, &workflows, total), r),
        0 <= k < r.requests@.len(),
        0 <= i < requests@.len(),
    ensures
        stage.filter_user matches Some(u) ==> r.requests@[k].requester@ == u@,
        stage.filter_user is None || requests@[i].requester@ == stage.filter_user->0@ ==> exists|
            j: int,
        |
            0 <= j < r.requests@.len() && (#[trigger] r.requests@[j]).id == requests@[i].id,
        stage.filter_user is None ==> r.total == total,
        stage.filter_user is Some && r.requests@.len() <= u32::MAX ==> r.total
            == r.requests@.len(),
        r.limit == stage.page.limit,
        r.offset == stage.page.offset,
{
    let places = places_of(requests@, stage.filter_user);
    lemma_places_in_range(requests@, stage.filter_user);
    assert(summarizes(r.requests@[k], requests@[places[k]], workflows@[places[k]]));
    if let Some(u) = stage.filter_user {
        filtered_list_is_theirs(requests@, u, places[k]);
        filtered_list_is_theirs(requests@, u, i);
        assert(places.contains(places[k]));
        if requests@[i].requester@ == u@ {
            let j = choose|j: int| 0 <= j < places.len() && places[j] == i;
            assert(summarizes(r.requests@[j], requests@[places[j]], workflows@[places[j]]));
        }
    } else {
        lemma_all_places(requests@);
        assert(places[i] == i);
        assert(summarizes(r.requests@[i], requests@[places[i]], workflows@[places[i]]));
    }
}

/// A listed request is shown with its status and operation; who approves next is
/// told of a pending one alone.
pub proof fn listed_requests_are_shown(q: Request, workflow: Option<Workflow>, r: RequestSummary)
    requires
        call_ensures(RequestSummary::from_request, (&q, &workflow), r),
    ensures
        r.id == q.id,
        r.requester == q.requester,
        r.database == q.database,
        r.environment == q.environment,
        r.operation@ == q.operation.text(),
        r.status@ == q.status.text(),
        r.created_at == q.created_at,
        q.status != RequestStatus::Pending || workflow is None ==> r.total_steps is None
            && r.next_approvers@.len() == 0,
        q.status == RequestStatus::Pending && workflow is Some && workflow->0.steps@.len()
            <= u32::MAX ==> r.total_steps == Some(workflow->0.steps@.len() as u32),
        q.status == RequestStatus::Pending && workflow is Some && workflow->0.steps@.len() > 0 ==> {
            let first = workflow->0.steps@[0].approvers@;
            &&& r.next_approvers@.len() == first.len()
            &&& forall|i: int|
                0 <= i < first.len() ==> (#[trigger] r.next_approvers@[i])@
                    == first[i].selector.text()
        },
{
    assert(texts(r.next_approvers@).len() == r.next_approvers@.len());
    if q.status == RequestStatus::Pending && workflow is Some && workflow->0.steps@.len() > 0 {
        let first = workflow->0.steps@[0].approvers@;
        assert forall|i: int| 0 <= i < first.len() implies (#[trigger] r.next_approvers@[i])@
            == first[i].selector.text() by {
            assert(texts(r.next_approvers@)[i] == selector_texts(first)[i]);
        }
    }
}

} // verus!
