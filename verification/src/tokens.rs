//! The token administration commands: argument handling and the decisions
//! of `create-token --name <name> [--org <slug>] [--role <role>]
//! [--expires-in-days <n>]` and `revoke-token --name <name> | --id <uuid>`.
//!
//! Arguments are read left to right; an option that takes a value consumes
//! the next argument. `--name`, `--org` and `--id` given as the last
//! argument clear what they set. A created token is admin-scoped unless
//! `--org` is given, and only org-scoped tokens may have a role other than
//! `owner`.
use vstd::prelude::*;
use crate::text::{owned, str_eq, chars_of, parse_i64, parse_i64_spec, push_decimal, decimal};
use crate::rbac::{Role, is_role_name};
use crate::crypto::{hex128, uuid_simple, parse_uuid, uuid_parse_spec};
use crate::auth::{hash_token, token_hash_spec, Token};

verus! {

/// The texts of the arguments.
pub open spec fn arg_texts(args: Seq<String>) -> Seq<Seq<char>> {
    args.map_values(|s: String| s@)
}

/// What `create-token` was asked for.
#[derive(Debug)]
pub struct CreateTokenArgs {
    pub name: String,
    pub org: Option<String>,
    pub role: String,
    pub expires_in_days: Option<i64>,
}

/// The options of `create-token` as read so far.
pub struct CreateScan {
    pub name: Option<Seq<char>>,
    pub org: Option<Seq<char>>,
    pub role: Seq<char>,
    pub days: Option<i64>,
}

/// The decimal text of a signed number.
pub open spec fn signed_decimal(d: int) -> Seq<char> {
    if d < 0 { "-"@ + decimal((0 - d) as nat) } else { decimal(d as nat) }
}

/// The argument after position `i`, if there is one.
pub open spec fn next_arg(args: Seq<Seq<char>>, i: int) -> Option<Seq<char>> {
    if i + 1 < args.len() { Some(args[i + 1]) } else { None }
}

/// Read the `create-token` options from position `i` on.
pub open spec fn scan_create(args: Seq<Seq<char>>, i: int, st: CreateScan) -> Result<CreateScan, Seq<char>>
    decreases args.len() + 1 - i,
{
    if i < 0 || i >= args.len() {
        Ok(st)
    } else {
        let a = args[i];
        let next = next_arg(args, i);
        if a == "--name"@ {
            scan_create(args, i + 2, CreateScan { name: next, ..st })
        } else if a == "--org"@ {
            scan_create(args, i + 2, CreateScan { org: next, ..st })
        } else if a == "--role"@ {
            match next {
                None => Err("--role needs a value"@),
                Some(v) => scan_create(args, i + 2, CreateScan { role: v, ..st }),
            }
        } else if a == "--expires-in-days"@ {
            match next {
                None => Err("--expires-in-days needs a value"@),
                Some(raw) => match parse_i64_spec(raw) {
                    None => Err("--expires-in-days must be a positive integer (got `"@ + raw + "`)"@),
                    Some(d) => if d <= 0 {
                        Err("--expires-in-days must be positive (got "@ + signed_decimal(d as int) + ")"@)
                    } else {
                        scan_create(args, i + 2, CreateScan { days: Some(d), ..st })
                    },
                },
            }
        } else {
            Err("unknown argument `"@ + a + "`"@)
        }
    }
}

/// The outcome of `create-token`'s argument handling.
pub open spec fn create_args_spec(args: Seq<Seq<char>>) -> Result<CreateScan, Seq<char>> {
    match scan_create(args, 0, CreateScan { name: None, org: None, role: "owner"@, days: None }) {
        Err(e) => Err(e),
        Ok(st) => if st.name is None {
            Err("--name is required"@)
        } else if !is_role_name(st.role) {
            Err("--role must be one of: owner, publisher, reader (got `"@ + st.role + "`)"@)
        } else if st.org is None && st.role != "owner"@ {
            Err("--role only applies to org-scoped tokens; pass --org, or omit --role for an admin token"@)
        } else {
            Ok(st)
        },
    }
}

fn opt_owned(o: Option<&String>) -> (r: Option<String>)
    ensures
        crate::config::opt_view(r) == match o {
            Some(s) => Some(s@),
            None => None::<Seq<char>>,
        },
{
    match o {
        Some(s) => Some(owned(s.as_str())),
        None => None,
    }
}

fn quoted(prefix: &str, value: &str, suffix: &str) -> (r: String)
    ensures
        r@ == prefix@ + value@ + suffix@,
{
    let mut m = owned(prefix);
    m.append(value);
    m.append(suffix);
    m
}

/// Append the decimal text of a signed number.
pub fn push_signed_decimal(s: &mut String, d: i64)
    ensures
        final(s)@ == old(s)@ + signed_decimal(d as int),
{
    if d < 0 {
        s.append("-");
        let m: i128 = 0i128 - (d as i128);
        push_decimal(s, m as u128);
        proof { reveal_strlit("-"); }
        assert(final(s)@ =~= old(s)@ + signed_decimal(d as int));
    } else {
        push_decimal(s, d as u128);
    }
}

/// Read the arguments of `create-token`.
pub fn parse_create_token_args(args: &[String]) -> (r: Result<CreateTokenArgs, String>)
    ensures
        r matches Ok(a) ==> create_args_spec(arg_texts(args@)) == Ok::<CreateScan, Seq<char>>(
            CreateScan {
                name: Some(a.name@),
                org: crate::config::opt_view(a.org),
                role: a.role@,
                days: a.expires_in_days,
            },
        ),
        r matches Err(e) ==> create_args_spec(arg_texts(args@)) == Err::<CreateScan, Seq<char>>(e@),
{
    let ghost t = arg_texts(args@);
    let mut name: Option<String> = None;
    let mut org: Option<String> = None;
    let mut role: String = owned("owner");
    let mut days: Option<i64> = None;
    let mut i: usize = 0;
    proof { reveal_strlit("owner"); }
    while i < args.len()
        invariant
            t == arg_texts(args@),
            i <= args@.len(),
            scan_create(t, 0, CreateScan { name: None, org: None, role: "owner"@, days: None })
                == scan_create(
                t,
                i as int,
                CreateScan {
                    name: crate::config::opt_view(name),
                    org: crate::config::opt_view(org),
                    role: role@,
                    days,
                },
            ),
        decreases args.len() - i,
    {
        let a = &args[i];
        let next: Option<&String> = if i + 1 < args.len() { Some(&args[i + 1]) } else { None };
        assert(t[i as int] == a@);
        if i + 1 < args.len() {
            assert(t[i + 1] == args@[i + 1]@);
        }
        let ghost i0 = i as int;
        if str_eq(a.as_str(), "--name") {
            name = opt_owned(next);
        } else if str_eq(a.as_str(), "--org") {
            org = opt_owned(next);
        } else if str_eq(a.as_str(), "--role") {
            match next {
                None => return Err(owned("--role needs a value")),
                Some(v) => role = owned(v.as_str()),
            }
        } else if str_eq(a.as_str(), "--expires-in-days") {
            match next {
                None => return Err(owned("--expires-in-days needs a value")),
                Some(raw) => {
                    let cs = chars_of(raw.as_str());
                    match parse_i64(cs.as_slice()) {
                        None => {
                            return Err(
                                quoted("--expires-in-days must be a positive integer (got `", raw.as_str(), "`)"),
                            );
                        },
                        Some(d) => {
                            if d <= 0 {
                                let mut m = owned("--expires-in-days must be positive (got ");
                                push_signed_decimal(&mut m, d);
                                m.append(")");
                                return Err(m);
                            }
                            days = Some(d);
                        },
                    }
                },
            }
        } else {
            return Err(quoted("unknown argument `", a.as_str(), "`"));
        }
        if i + 1 < args.len() {
            i = i + 2;
        } else {
            i = args.len();
            let ghost st = CreateScan {
                name: crate::config::opt_view(name),
                org: crate::config::opt_view(org),
                role: role@,
                days,
            };
            assert(scan_create(t, i0 + 2, st) == Ok::<CreateScan, Seq<char>>(st));
            assert(scan_create(t, i as int, st) == Ok::<CreateScan, Seq<char>>(st));
        }
    }
    let name = match name {
        None => return Err(owned("--name is required")),
        Some(n) => n,
    };
    let valid = Role::is_valid(role.as_str());
    if !valid {
        return Err(quoted("--role must be one of: owner, publisher, reader (got `", role.as_str(), "`)"));
    }
    if org.is_none() && !str_eq(role.as_str(), "owner") {
        return Err(owned("--role only applies to org-scoped tokens; pass --org, or omit --role for an admin token"));
    }
    Ok(CreateTokenArgs { name, org, role, expires_in_days: days })
}

/// A token plaintext: `zpkg_` and the 32 lowercase hex digits of each of
/// two 128-bit values.
pub open spec fn token_plaintext_spec(a: u128, b: u128) -> Seq<char> {
    "zpkg_"@ + hex128(a) + hex128(b)
}

/// The plaintext of a new token from two random 128-bit values.
pub fn token_plaintext(a: u128, b: u128) -> (r: String)
    ensures
        r@ == token_plaintext_spec(a, b),
{
    let mut r = owned("zpkg_");
    let x = uuid_simple(a);
    r.append(x.as_str());
    let y = uuid_simple(b);
    r.append(y.as_str());
    r
}

/// Seconds in a day.
pub const SECONDS_PER_DAY: i64 = 86400;

/// The expiry of a token created at `now` (seconds since the epoch) that
/// lives `days` days, when a lifetime was given.
pub open spec fn expiry_spec(now: i64, days: Option<i64>) -> Option<i64> {
    match days {
        Some(d) => Some((now + d * SECONDS_PER_DAY) as i64),
        None => None,
    }
}

/// The token row `create-token` writes for `args`: the new row's `id`, the
/// org the token is scoped to (present exactly when `--org` was given), the
/// SHA-256 of the plaintext printed to the operator, the role asked for,
/// created at `now`, expiring `--expires-in-days` days later when given,
/// and not revoked.
pub fn created_token_row(args: &CreateTokenArgs, id: u128, org_id: Option<u128>, plaintext: &str, now: i64) -> (t: Token)
    requires
        org_id is Some <==> args.org is Some,
        args.expires_in_days matches Some(d) ==> i64::MIN <= d * SECONDS_PER_DAY <= i64::MAX
            && i64::MIN <= now + d * SECONDS_PER_DAY <= i64::MAX,
    ensures
        t.id == id,
        t.name@ == args.name@,
        t.token_hash@ == token_hash_spec(plaintext@),
        t.org_id == org_id,
        t.org_id is Some <==> args.org is Some,
        t.role@ == args.role@,
        t.created_at == now,
        t.expires_at == expiry_spec(now, args.expires_in_days),
        t.expires_at is Some <==> args.expires_in_days is Some,
        t.revoked_at is None,
{
    let expires_at = match args.expires_in_days {
        Some(d) => Some(now + d * SECONDS_PER_DAY),
        None => None,
    };
    Token {
        id,
        name: owned(args.name.as_str()),
        token_hash: hash_token(plaintext),
        org_id,
        role: owned(args.role.as_str()),
        created_at: now,
        expires_at,
        revoked_at: None,
    }
}

/// The line announcing a created token: its name, its scope (org and role,
/// or admin), and its expiry when it has one.
pub open spec fn created_message_spec(name: Seq<char>, org: Option<Seq<char>>, role: Seq<char>, expiry: Option<Seq<char>>) -> Seq<char> {
    "token `"@ + name + "` created ("@ + match org {
        Some(o) => "org `"@ + o + "`, role `"@ + role + "`"@,
        None => "admin (all orgs)"@,
    } + match expiry {
        Some(e) => ", expires "@ + e,
        None => Seq::empty(),
    } + "); save it now, it is shown exactly once:"@
}

/// Announce a created token; `expiry` is the RFC 3339 text of its expiry.
pub fn created_message(name: &str, org: Option<&str>, role: &str, expiry: Option<&str>) -> (r: String)
    ensures
        r@ == created_message_spec(
            name@,
            match org {
                Some(o) => Some(o@),
                None => None,
            },
            role@,
            match expiry {
                Some(e) => Some(e@),
                None => None,
            },
        ),
{
    let mut m = owned("token `");
    m.append(name);
    m.append("` created (");
    let ghost head = m@;
    match org {
        Some(o) => {
            m.append("org `");
            m.append(o);
            m.append("`, role `");
            m.append(role);
            m.append("`");
        },
        None => m.append("admin (all orgs)"),
    }
    let ghost mid = m@;
    match expiry {
        Some(e) => {
            m.append(", expires ");
            m.append(e);
        },
        None => {
            assert(m@ =~= mid + Seq::<char>::empty());
        },
    }
    m.append("); save it now, it is shown exactly once:");
    assert(m@ =~= created_message_spec(
        name@,
        match org {
            Some(o) => Some(o@),
            None => None,
        },
        role@,
        match expiry {
            Some(e) => Some(e@),
            None => None,
        },
    ));
    m
}

/// What `revoke-token` was asked for.
#[derive(Debug)]
pub struct RevokeTokenArgs {
    pub name: Option<String>,
    pub id: Option<String>,
}

/// Read the `revoke-token` options from position `i` on.
pub open spec fn scan_revoke(args: Seq<Seq<char>>, i: int, name: Option<Seq<char>>, id: Option<Seq<char>>) -> Result<
    (Option<Seq<char>>, Option<Seq<char>>),
    Seq<char>,
>
    decreases args.len() + 1 - i,
{
    if i < 0 || i >= args.len() {
        Ok((name, id))
    } else if args[i] == "--name"@ {
        scan_revoke(args, i + 2, next_arg(args, i), id)
    } else if args[i] == "--id"@ {
        scan_revoke(args, i + 2, name, next_arg(args, i))
    } else {
        Err("unknown argument `"@ + args[i] + "`"@)
    }
}

/// The outcome of `revoke-token`'s argument handling.
pub open spec fn revoke_args_spec(args: Seq<Seq<char>>) -> Result<(Option<Seq<char>>, Option<Seq<char>>), Seq<char>> {
    match scan_revoke(args, 0, None, None) {
        Err(e) => Err(e),
        Ok((name, id)) => if name is None && id is None {
            Err("pass --name <name> or --id <uuid> to identify the token to revoke"@)
        } else {
            Ok((name, id))
        },
    }
}

/// Read the arguments of `revoke-token`.
pub fn parse_revoke_token_args(args: &[String]) -> (r: Result<RevokeTokenArgs, String>)
    ensures
        r matches Ok(a) ==> revoke_args_spec(arg_texts(args@)) == Ok::<
            (Option<Seq<char>>, Option<Seq<char>>),
            Seq<char>,
        >((crate::config::opt_view(a.name), crate::config::opt_view(a.id))),
        r matches Err(e) ==> revoke_args_spec(arg_texts(args@)) == Err::<
            (Option<Seq<char>>, Option<Seq<char>>),
            Seq<char>,
        >(e@),
{
    let ghost t = arg_texts(args@);
    let mut name: Option<String> = None;
    let mut id: Option<String> = None;
    let mut i: usize = 0;
    while i < args.len()
        invariant
            t == arg_texts(args@),
            i <= args@.len(),
            scan_revoke(t, 0, None, None) == scan_revoke(
                t,
                i as int,
                crate::config::opt_view(name),
                crate::config::opt_view(id),
            ),
        decreases args.len() - i,
    {
        let a = &args[i];
        let next: Option<&String> = if i + 1 < args.len() { Some(&args[i + 1]) } else { None };
        assert(t[i as int] == a@);
        if i + 1 < args.len() {
            assert(t[i + 1] == args@[i + 1]@);
        }
        let ghost i0 = i as int;
        if str_eq(a.as_str(), "--name") {
            name = opt_owned(next);
        } else if str_eq(a.as_str(), "--id") {
            id = opt_owned(next);
        } else {
            return Err(quoted("unknown argument `", a.as_str(), "`"));
        }
        if i + 1 < args.len() {
            i = i + 2;
        } else {
            i = args.len();
            let ghost n = crate::config::opt_view(name);
            let ghost d = crate::config::opt_view(id);
            assert(scan_revoke(t, i0 + 2, n, d) == Ok::<(Option<Seq<char>>, Option<Seq<char>>), Seq<char>>((n, d)));
            assert(scan_revoke(t, i as int, n, d) == Ok::<(Option<Seq<char>>, Option<Seq<char>>), Seq<char>>((n, d)));
        }
    }
    if name.is_none() && id.is_none() {
        return Err(owned("pass --name <name> or --id <uuid> to identify the token to revoke"));
    }
    Ok(RevokeTokenArgs { name, id })
}

/// The summary line of a revocation.
pub fn revoked_message(count: u64) -> (r: String)
    ensures
        r@ == "revoked "@ + decimal(count as nat) + " token(s)"@,
{
    let mut m = owned("revoked ");
    push_decimal(&mut m, count as u128);
    m.append(" token(s)");
    m
}


/// The revocation times after revoking every matched token at `now`: a
/// token already revoked keeps its time.
pub open spec fn after_revocation(revoked_at: Seq<Option<i64>>, now: i64) -> Seq<Option<i64>> {
    Seq::new(revoked_at.len(), |i: int| if revoked_at[i] is None { Some(now) } else { revoked_at[i] })
}

/// Which tokens a revocation is for: those with this name, and/or this id.
#[derive(Debug)]
pub struct RevokeFilter {
    pub name: Option<String>,
    pub id: Option<u128>,
}

/// The filter for a name and, when `--id` was given, the UUID read from it
/// (`Some(None)` when its text is not a UUID, which is refused).
pub fn filter_of(name: Option<String>, id: Option<Option<u128>>) -> (r: Result<RevokeFilter, String>)
    ensures
        r is Err <==> id == Some(None::<u128>),
        r matches Err(e) ==> e@ == "--id must be a UUID"@,
        r matches Ok(f) ==> crate::config::opt_view(f.name) == crate::config::opt_view(name)
            && f.id == match id { Some(u) => u, None => None::<u128> },
{
    match id {
        Some(None) => Err(owned("--id must be a UUID")),
        Some(Some(u)) => Ok(RevokeFilter { name, id: Some(u) }),
        None => Ok(RevokeFilter { name, id: None }),
    }
}

/// The filter `revoke-token`'s arguments ask for: `--id` must be a UUID.
pub fn revoke_filter(args: RevokeTokenArgs) -> (r: Result<RevokeFilter, String>)
    ensures
        r is Err <==> (args.id matches Some(s) && uuid_parse_spec(s@) is None),
        r matches Err(e) ==> e@ == "--id must be a UUID"@,
        r matches Ok(f) ==> crate::config::opt_view(f.name) == crate::config::opt_view(args.name)
            && f.id == match args.id { Some(s) => uuid_parse_spec(s@), None => None::<u128> },
{
    let RevokeTokenArgs { name, id } = args;
    let parsed = match id {
        Some(text) => Some(parse_uuid(text.as_str())),
        None => None,
    };
    filter_of(name, parsed)
}

/// Whether a token passes every filter that is given.
pub open spec fn token_matches(t: Token, name: Option<Seq<char>>, id: Option<u128>) -> bool {
    &&& (name matches Some(n) ==> t.name@ == n)
    &&& (id matches Some(u) ==> t.id == u)
}

/// A token after revocation at `now`: an existing revocation time is kept.
pub open spec fn revoke_one(t: Token, now: i64) -> Token {
    if t.revoked_at is None {
        Token { revoked_at: Some(now), ..t }
    } else {
        t
    }
}

/// The token table after revoking every matching token at `now`; the
/// others are untouched.
pub open spec fn revoked_tokens(ts: Seq<Token>, name: Option<Seq<char>>, id: Option<u128>, now: i64) -> Seq<Token> {
    Seq::new(ts.len(), |i: int| if token_matches(ts[i], name, id) { revoke_one(ts[i], now) } else { ts[i] })
}

/// How many matching tokens are still live.
pub open spec fn live_matches(ts: Seq<Token>, name: Option<Seq<char>>, id: Option<u128>) -> nat
    decreases ts.len(),
{
    if ts.len() == 0 {
        0
    } else {
        live_matches(ts.drop_last(), name, id)
            + if token_matches(ts.last(), name, id) && ts.last().revoked_at is None { 1nat } else { 0nat }
    }
}

/// The revocation times of a token table.
pub open spec fn revocation_times(ts: Seq<Token>) -> Seq<Option<i64>> {
    ts.map_values(|t: Token| t.revoked_at)
}

fn matches_filter(t: &Token, filter: &RevokeFilter) -> (r: bool)
    ensures
        r == token_matches(*t, crate::config::opt_view(filter.name), filter.id),
{
    let by_name = match &filter.name {
        Some(n) => str_eq(t.name.as_str(), n.as_str()),
        None => true,
    };
    let by_id = match filter.id {
        Some(u) => t.id == u,
        None => true,
    };
    by_name && by_id
}

/// Revoke the tokens a filter matches, at `now`: fails with `no token
/// matched` (changing nothing) when none does; otherwise every matching
/// token not yet revoked gets `now`, a revoked one keeps its time, the
/// others are untouched, and the count of newly revoked tokens comes back.
pub fn revoke_tokens(tokens: &mut Vec<Token>, filter: &RevokeFilter, now: i64) -> (r: Result<u64, String>)
    ensures
        r is Err <==> !exists|i: int| 0 <= i < old(tokens)@.len()
            && #[trigger] token_matches(old(tokens)@[i], crate::config::opt_view(filter.name), filter.id),
        r matches Err(e) ==> e@ == "no token matched"@ && final(tokens)@ == old(tokens)@,
        r matches Ok(n) ==> final(tokens)@ == revoked_tokens(old(tokens)@, crate::config::opt_view(filter.name), filter.id, now)
            && n == live_matches(old(tokens)@, crate::config::opt_view(filter.name), filter.id),
        forall|i: int| 0 <= i < old(tokens)@.len()
            && token_matches(old(tokens)@[i], crate::config::opt_view(filter.name), filter.id) && r is Ok
            ==> #[trigger] revocation_times(final(tokens)@)[i] == after_revocation(revocation_times(old(tokens)@), now)[i],
{
    let ghost start = tokens@;
    let ghost name = crate::config::opt_view(filter.name);
    let mut any = false;
    let mut i: usize = 0;
    while i < tokens.len()
        invariant
            tokens@ == start,
            name == crate::config::opt_view(filter.name),
            i <= start.len(),
            any <==> exists|j: int| 0 <= j < i && #[trigger] token_matches(start[j], name, filter.id),
        decreases tokens.len() - i,
    {
        if matches_filter(&tokens[i], filter) {
            any = true;
        }
        i = i + 1;
    }
    if !any {
        return Err(owned("no token matched"));
    }
    let ghost goal = revoked_tokens(start, name, filter.id, now);
    let mut count: u64 = 0;
    i = 0;
    while i < tokens.len()
        invariant
            tokens@.len() == start.len(),
            name == crate::config::opt_view(filter.name),
            goal == revoked_tokens(start, name, filter.id, now),
            i <= start.len(),
            forall|j: int| 0 <= j < i ==> #[trigger] tokens@[j] == goal[j],
            forall|j: int| i <= j < start.len() ==> #[trigger] tokens@[j] == start[j],
            count == live_matches(start.take(i as int), name, filter.id),
            count <= i,
        decreases start.len() - i,
    {
        assert(start.take(i + 1).drop_last() =~= start.take(i as int));
        assert(start.take(i + 1).last() == start[i as int]);
        assert(tokens@[i as int] == start[i as int]);
        if matches_filter(&tokens[i], filter) && tokens[i].revoked_at.is_none() {
            let mut t = tokens.remove(i);
            t.revoked_at = Some(now);
            tokens.insert(i, t);
            count = count + 1;
        }
        assert(tokens@[i as int] == goal[i as int]);
        i = i + 1;
    }
    assert(tokens@ =~= goal);
    assert(start.take(start.len() as int) =~= start);
    proof {
        assert forall|j: int| 0 <= j < start.len() && token_matches(start[j], name, filter.id)
            implies #[trigger] revocation_times(tokens@)[j] == after_revocation(revocation_times(start), now)[j] by {
            assert(tokens@[j] == goal[j]);
        }
    }
    Ok(count)
}

/// Revoking is idempotent: revoking the same tokens again, at any later
/// time, leaves the table as the first revocation left it and revokes none.
pub proof fn lemma_revoke_tokens_idempotent(ts: Seq<Token>, name: Option<Seq<char>>, id: Option<u128>, now: i64, later: i64)
    ensures
        revoked_tokens(revoked_tokens(ts, name, id, now), name, id, later) == revoked_tokens(ts, name, id, now),
        live_matches(revoked_tokens(ts, name, id, now), name, id) == 0,
    decreases ts.len(),
{
    let once = revoked_tokens(ts, name, id, now);
    assert(revoked_tokens(once, name, id, later) =~= once);
    if ts.len() > 0 {
        lemma_revoke_tokens_idempotent(ts.drop_last(), name, id, now, later);
        assert(revoked_tokens(ts.drop_last(), name, id, now) =~= once.drop_last());
    }
}

} // verus!
