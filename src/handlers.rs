//! The five request handlers, over a store that the caller has locked.
//!
//! Each takes plain request values and returns the status and payload of the
//! response, or an error for the error mapper.

use vstd::prelude::*;

use crate::errors::UserError;
use crate::store::{lookup, removed, upserted, window, UserStore};
use crate::user::{models, User, UserModel, UserRequest};

verus! {

/// Status of a successful read, update or delete.
pub const STATUS_OK: u16 = 200;

/// Status of a successful create.
pub const STATUS_CREATED: u16 = 201;

/// The page asked for when the query names none.
pub const DEFAULT_PAGE: usize = 1;

/// The page size asked for when the query names none.
pub const DEFAULT_PER_PAGE: usize = 10;

/// The query of a listing: both optional, both positive when present.
#[derive(Debug, Clone, Copy, PartialEq, Eq)]
pub struct PaginationParams {
    pub page: Option<usize>,
    pub per_page: Option<usize>,
}

/// One page of a listing, with the counts that locate it.
#[derive(Debug, Clone, PartialEq, Eq)]
pub struct PaginatedResponse<T> {
    pub data: Vec<T>,
    pub total: usize,
    pub page: usize,
    pub per_page: usize,
    pub total_pages: usize,
}

/// A successful response: its status and its payload.
#[derive(Debug, Clone, PartialEq, Eq)]
pub struct Reply<T> {
    pub status: u16,
    pub body: T,
}

/// The page number in effect (1-based).
pub open spec fn page_of(p: PaginationParams) -> int {
    match p.page {
        Some(n) => n as int,
        None => DEFAULT_PAGE as int,
    }
}

/// The page size in effect.
pub open spec fn per_page_of(p: PaginationParams) -> int {
    match p.per_page {
        Some(n) => n as int,
        None => DEFAULT_PER_PAGE as int,
    }
}

/// The ceiling of `a / b`, for positive `b`.
pub open spec fn ceil_div(a: int, b: int) -> int {
    (a + b - 1) / b
}

/// How many records page `page` of size `per_page` holds when there are `total`.
pub open spec fn page_len(total: int, page: int, per_page: int) -> int {
    let rest = total - (page - 1) * per_page;
    if rest <= 0 {
        0
    } else if per_page < rest {
        per_page
    } else {
        rest
    }
}

/// Creates a user with the next id (the current count plus one); status 201.
/// Fails with `InternalServerError` when that id would not fit in a `u32`.
pub fn create_user(store: &mut UserStore, req: UserRequest) -> (r: Result<Reply<User>, UserError>)
    requires
        old(store).wf(),
    ensures
        final(store).wf(),
        old(store)@.len() < u32::MAX ==> match r {
            Ok(rep) => rep.status == STATUS_CREATED && rep.body@ == (UserModel {
                id: (old(store)@.len() + 1) as u32,
                name: req.name@,
                email: req.email@,
            }) && final(store)@ == upserted(old(store)@, rep.body@),
            Err(_) => false,
        },
        old(store)@.len() >= u32::MAX ==> r == Err::<Reply<User>, UserError>(
            UserError::InternalServerError,
        ) && final(store)@ == old(store)@,
{
    if store.len() >= u32::MAX as usize {
        return Err(UserError::InternalServerError);
    }
    let user = store.create(req);
    Ok(Reply { status: STATUS_CREATED, body: user })
}

/// One page of the listing, in the store's order; status 200.
/// Fails with `ValidationError` when the page or the page size is zero.
pub fn get_users(store: &UserStore, params: PaginationParams) -> (r: Result<
    Reply<PaginatedResponse<User>>,
    UserError,
>)
    ensures
        page_of(params) >= 1 && per_page_of(params) >= 1 ==> match r {
            Ok(rep) => {
                let total = store@.len() as int;
                let p = page_of(params);
                let n = per_page_of(params);
                &&& rep.status == STATUS_OK
                &&& models(rep.body.data@) == window(store@, (p - 1) * n, n)
                &&& rep.body.data@.len() == page_len(total, p, n)
                &&& rep.body.total == total
                &&& rep.body.page == p
                &&& rep.body.per_page == n
                &&& rep.body.total_pages == ceil_div(total, n)
            },
            Err(_) => false,
        },
        !(page_of(params) >= 1 && per_page_of(params) >= 1) ==> r == Err::<
            Reply<PaginatedResponse<User>>,
            UserError,
        >(UserError::ValidationError),
{
    let page = match params.page {
        Some(p) => p,
        None => DEFAULT_PAGE,
    };
    let per_page = match params.per_page {
        Some(n) => n,
        None => DEFAULT_PER_PAGE,
    };
    if page == 0 || per_page == 0 {
        return Err(UserError::ValidationError);
    }
    let total = store.len();
    let partial: usize = if total % per_page == 0 {
        0
    } else {
        1
    };
    proof {
        assert(total / per_page + partial <= usize::MAX) by (nonlinear_arith)
            requires
                per_page > 0,
                total <= usize::MAX,
                partial == 0 <==> total % per_page == 0,
                partial == 0 || partial == 1,
        {
            if per_page == 1 {
                assert(total % per_page == 0);
            } else {
                assert(total / per_page <= total / 2);
            }
        }
    }
    let total_pages = total / per_page + partial;
    proof {
        assert(total_pages == ceil_div(total as int, per_page as int)) by (nonlinear_arith)
            requires
                per_page > 0,
                total_pages == total / per_page + partial,
                partial == 0 <==> total % per_page == 0,
                partial == 0 || partial == 1,
        ;
    }
    let start = match (page - 1).checked_mul(per_page) {
        Some(s) => s,
        None => usize::MAX,
    };
    proof {
        if (page - 1) * per_page > usize::MAX {
            assert(start >= total);
        }
    }
    let data = store.slice(start, per_page);
    assert(window(store@, start as int, per_page as int) =~= window(
        store@,
        (page - 1) * per_page,
        per_page as int,
    ));
    Ok(
        Reply {
            status: STATUS_OK,
            body: PaginatedResponse { data, total, page, per_page, total_pages },
        },
    )
}

/// The user under `id`, status 200; `NotFound` when there is none.
pub fn get_user(store: &UserStore, id: u32) -> (r: Result<Reply<User>, UserError>)
    requires
        store.wf(),
    ensures
        match r {
            Ok(rep) => rep.status == STATUS_OK && lookup(store@, id) == Some(rep.body@),
            Err(e) => e == UserError::NotFound && lookup(store@, id) == None::<UserModel>,
        },
{
    match store.get(id) {
        Ok(user) => Ok(Reply { status: STATUS_OK, body: user }),
        Err(e) => Err(e),
    }
}

/// Stores the request under `id`, whether or not a user was there; status 200.
pub fn update_user(store: &mut UserStore, id: u32, req: UserRequest) -> (r: Reply<User>)
    requires
        old(store).wf(),
    ensures
        final(store).wf(),
        r.status == STATUS_OK,
        r.body@ == (UserModel { id, name: req.name@, email: req.email@ }),
        final(store)@ == upserted(old(store)@, r.body@),
{
    let user = store.update(id, req);
    Reply { status: STATUS_OK, body: user }
}

/// Removes and returns the user under `id`, status 200; `NotFound`, with the
/// store unchanged, when there is none.
pub fn delete_user(store: &mut UserStore, id: u32) -> (r: Result<Reply<User>, UserError>)
    requires
        old(store).wf(),
    ensures
        final(store).wf(),
        final(store)@ == removed(old(store)@, id),
        match r {
            Ok(rep) => rep.status == STATUS_OK && lookup(old(store)@, id) == Some(rep.body@),
            Err(e) => e == UserError::NotFound && lookup(old(store)@, id) == None::<UserModel>
                && final(store)@ == old(store)@,
        },
{
    match store.delete(id) {
        Ok(user) => Ok(Reply { status: STATUS_OK, body: user }),
        Err(e) => Err(e),
    }
}

} // verus!
