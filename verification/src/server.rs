//! Process-level decisions: which command the process runs, where the
//! container health probe looks, and how long the database connect retries.
use vstd::prelude::*;
use vstd::string::*;
use crate::text::{chars_of, chars_eq, sub_chars, push_chars, push_decimal, parse_u64, parse_u64_spec, decimal};

verus! {

/// The command a process invocation selects.
#[derive(Debug, PartialEq, Eq)]
pub enum ProcessCommand<'a> {
    /// `create-token`, with the arguments that follow it.
    CreateToken(&'a [String]),
    /// `healthcheck`.
    Healthcheck,
    /// `revoke-token`, with the arguments that follow it.
    RevokeToken(&'a [String]),
    /// Anything else runs the server.
    Serve,
}

/// Select the command from the process arguments (`args[0]` is the program).
pub fn process_command(args: &[String]) -> (r: ProcessCommand<'_>)
    ensures
        (args@.len() >= 2 && args@[1]@ == "create-token"@) ==> (r matches ProcessCommand::CreateToken(
            rest,
        ) && rest@ == args@.subrange(2, args@.len() as int)),
        (args@.len() >= 2 && args@[1]@ == "revoke-token"@) ==> (r matches ProcessCommand::RevokeToken(
            rest,
        ) && rest@ == args@.subrange(2, args@.len() as int)),
        (args@.len() >= 2 && args@[1]@ == "healthcheck"@) ==> r is Healthcheck,
        !(args@.len() >= 2 && (args@[1]@ == "create-token"@ || args@[1]@ == "revoke-token"@
            || args@[1]@ == "healthcheck"@)) ==> r is Serve,
{
    proof {
        reveal_strlit("create-token");
        reveal_strlit("revoke-token");
        reveal_strlit("healthcheck");
        assert("create-token"@[0] != "revoke-token"@[0]);
        assert("create-token"@[0] != "healthcheck"@[0]);
        assert("revoke-token"@[0] != "healthcheck"@[0]);
    }
    if args.len() < 2 {
        return ProcessCommand::Serve;
    }
    let first = chars_of(args[1].as_str());
    if chars_eq(first.as_slice(), "create-token") {
        let (_, rest) = args.split_at(2);
        ProcessCommand::CreateToken(rest)
    } else if chars_eq(first.as_slice(), "revoke-token") {
        let (_, rest) = args.split_at(2);
        ProcessCommand::RevokeToken(rest)
    } else if chars_eq(first.as_slice(), "healthcheck") {
        ProcessCommand::Healthcheck
    } else {
        ProcessCommand::Serve
    }
}

/// The text after the last `:` of `s`, or all of `s` when it has none.
pub open spec fn after_last_colon(s: Seq<char>) -> Seq<char>
    decreases s.len(),
{
    if s.len() == 0 {
        s
    } else if s.last() == ':' {
        Seq::empty()
    } else {
        after_last_colon(s.drop_last()).push(s.last())
    }
}

/// The health probe URL for a listener bound at `bind`: loopback, the
/// bound port, `/healthz`.
pub open spec fn healthcheck_url_spec(bind: Seq<char>) -> Seq<char> {
    "http://127.0.0.1:"@ + after_last_colon(bind) + "/healthz"@
}

/// The URL the container health probe requests.
pub fn healthcheck_url(bind: &str) -> (r: String)
    ensures
        r@ == healthcheck_url_spec(bind@),
{
    let cs = chars_of(bind);
    let mut start: usize = cs.len();
    assert(cs@.subrange(0, start as int) =~= cs@);
    assert(cs@.subrange(start as int, cs@.len() as int) =~= Seq::<char>::empty());
    assert(cs@ + Seq::<char>::empty() =~= cs@);
    while start > 0 && cs[start - 1] != ':'
        invariant
            start <= cs@.len(),
            after_last_colon(cs@) == after_last_colon(cs@.subrange(0, start as int))
                + cs@.subrange(start as int, cs@.len() as int),
        decreases start,
    {
        let ghost s = cs@.subrange(0, start as int);
        assert(s.drop_last() =~= cs@.subrange(0, start - 1));
        assert(cs@.subrange(start - 1, cs@.len() as int) =~= seq![s.last()] + cs@.subrange(
            start as int,
            cs@.len() as int,
        ));
        assert(after_last_colon(s) == after_last_colon(s.drop_last()).push(s.last()));
        assert(after_last_colon(s.drop_last()).push(s.last()) + cs@.subrange(
            start as int,
            cs@.len() as int,
        ) =~= after_last_colon(s.drop_last()) + cs@.subrange(start - 1, cs@.len() as int));
        start = start - 1;
    }
    assert(after_last_colon(cs@.subrange(0, start as int)) =~= Seq::<char>::empty());
    let port = sub_chars(cs.as_slice(), start, cs.len());
    assert(port@ =~= after_last_colon(cs@));
    let mut r = String::new();
    r.append("http://127.0.0.1:");
    push_chars(&mut r, port.as_slice());
    r.append("/healthz");
    assert(r@ =~= healthcheck_url_spec(bind@));
    r
}

/// How long to keep retrying the database connection: the configured
/// number of seconds when it parses as a `u64`, else thirty.
pub fn connect_max_wait_secs(configured: Option<&str>) -> (r: u64)
    ensures
        r == (match configured {
            Some(v) => match parse_u64_spec(v@) {
                Some(n) => n,
                None => 30,
            },
            None => 30,
        }),
{
    match configured {
        Some(v) => {
            let cs = chars_of(v);
            match parse_u64(cs.as_slice()) {
                Some(n) => n,
                None => 30,
            }
        },
        None => 30,
    }
}

/// The failure text once the connect deadline has passed.
pub open spec fn connect_failure_spec(attempts: nat, elapsed_secs: nat) -> Seq<char> {
    "failed to connect to DATABASE_URL after "@ + decimal(attempts) + " attempts over "@
        + decimal(elapsed_secs) + "s (DB_CONNECT_MAX_WAIT_SECS)"@
}

/// What a failed connection attempt leads to: `Err` with the failure text
/// once `elapsed_secs` has reached the deadline, `Ok` (retry) before it.
pub fn after_failed_connect(attempts: u32, elapsed_secs: u64, max_wait_secs: u64) -> (r: Result<
    (),
    String,
>)
    ensures
        r is Ok <==> elapsed_secs < max_wait_secs,
        r matches Err(m) ==> m@ == connect_failure_spec(attempts as nat, elapsed_secs as nat),
{
    if elapsed_secs >= max_wait_secs {
        let mut m = String::new();
        m.append("failed to connect to DATABASE_URL after ");
        push_decimal(&mut m, attempts as u128);
        m.append(" attempts over ");
        push_decimal(&mut m, elapsed_secs as u128);
        m.append("s (DB_CONNECT_MAX_WAIT_SECS)");
        assert(m@ =~= connect_failure_spec(attempts as nat, elapsed_secs as nat));
        Err(m)
    } else {
        Ok(())
    }
}

/// `s` without its trailing `/` characters.
pub open spec fn trim_trailing_slashes(s: Seq<char>) -> Seq<char>
    decreases s.len(),
{
    if s.len() > 0 && s.last() == '/' {
        trim_trailing_slashes(s.drop_last())
    } else {
        s
    }
}

/// The public base URL with trailing slashes removed, so paths can be appended.
pub fn public_base_url(configured: &str) -> (r: String)
    ensures
        r@ == trim_trailing_slashes(configured@),
{
    let cs = chars_of(configured);
    let mut end: usize = cs.len();
    assert(cs@.subrange(0, end as int) =~= cs@);
    while end > 0 && cs[end - 1] == '/'
        invariant
            end <= cs@.len(),
            trim_trailing_slashes(cs@.subrange(0, end as int)) == trim_trailing_slashes(cs@),
        decreases end,
    {
        assert(cs@.subrange(0, end as int).drop_last() =~= cs@.subrange(0, end - 1));
        end = end - 1;
    }
    let kept = sub_chars(cs.as_slice(), 0, end);
    crate::text::string_of(kept.as_slice())
}

} // verus!
