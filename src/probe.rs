//! Classification of fetch outcomes and the selection of analysis jobs.
use vstd::prelude::*;
use crate::types::{EntryJson, ProbeResult, SuccessJson};
use vstd::utf8::encode_utf8;
use vstd::string::StringExecFns;

verus! {

/// Status codes below this mark count as an application-level success.
pub const SUCCESS_STATUS_LIMIT: u16 = 400;

/// The address probed for host name `name` under domain `base`.
pub open spec fn target_of(name: Seq<char>, base: Seq<char>) -> Seq<char> {
    "http://"@ + name + "."@ + base
}

/// The targets for a list of host names: one per non-empty name, in order.
pub open spec fn targets_of(names: Seq<String>, base: Seq<char>) -> Seq<Seq<char>>
    decreases names.len(),
{
    if names.len() == 0 {
        seq![]
    } else {
        let rest = targets_of(names.drop_last(), base);
        if names.last()@.len() == 0 {
            rest
        } else {
            rest.push(target_of(names.last()@, base))
        }
    }
}

/// The address probed for host name `name` under domain `base`.
pub fn target_url(name: &str, base: &str) -> (r: String)
    ensures
        r@ == target_of(name@, base@),
{
    let mut r = String::from_str("http://");
    r.append(name);
    r.append(".");
    r.append(base);
    r
}

/// The targets for the host names `names` under domain `base`: empty names
/// are dropped, the others keep their order.
pub fn targets_from_hosts(names: &Vec<String>, base: &str) -> (r: Vec<String>)
    ensures
        r@.len() == targets_of(names@, base@).len(),
        forall|k: int| 0 <= k < r@.len() ==> (#[trigger] r@[k])@ == targets_of(names@, base@)[k],
{
    let mut r: Vec<String> = Vec::new();
    let mut i: usize = 0;
    while i < names.len()
        invariant
            i <= names@.len(),
            r@.len() == targets_of(names@.take(i as int), base@).len(),
            forall|k: int|
                0 <= k < r@.len() ==> (#[trigger] r@[k])@ == targets_of(
                    names@.take(i as int),
                    base@,
                )[k],
        decreases names@.len() - i,
    {
        assert(names@.take(i + 1).drop_last() =~= names@.take(i as int));
        assert(names@.take(i + 1).last() == names@[i as int]);
        let name = names[i].as_str();
        if !name.is_empty() {
            r.push(target_url(name, base));
        }
        i += 1;
    }
    assert(names@.take(names@.len() as int) =~= names@);
    r
}

/// Builds the outcome of one fetch of `url`.
///
/// `response` is `Err(message)` when the transport failed, and otherwise the
/// status code with either the body or the message of the failed body read.
pub fn probe_result(url: &str, response: Result<(u16, Result<String, String>), String>) -> (r:
    ProbeResult)
    ensures
        r.well_formed(),
        r.subdomain@ == url@,
        match response {
            Ok((status, Ok(body))) => r.status == Some(status) && r.content == Some(body)
                && r.error is None,
            Ok((status, Err(e))) => r.status == Some(status) && r.content is None && r.error
                == Some(e),
            Err(e) => r.status is None && r.content is None && r.error == Some(e),
        },
{
    let subdomain = url.to_string();
    match response {
        Ok((status, Ok(body))) => ProbeResult {
            subdomain,
            status: Some(status),
            content: Some(body),
            error: None,
        },
        Ok((status, Err(e))) => ProbeResult {
            subdomain,
            status: Some(status),
            content: None,
            error: Some(e),
        },
        Err(e) => ProbeResult { subdomain, status: None, content: None, error: Some(e) },
    }
}

/// Whether the outcome becomes an analysis job: a status below 400 and a body.
pub fn is_success(p: &ProbeResult) -> (r: bool)
    ensures
        r == p.is_success(),
{
    match (&p.status, &p.content) {
        (Some(s), Some(_)) => *s < SUCCESS_STATUS_LIMIT,
        _ => false,
    }
}

/// The persisted summary of one outcome: its body's byte length in place of
/// the body.
pub fn entry_of(p: &ProbeResult) -> (r: EntryJson)
    ensures
        r.subdomain == p.subdomain,
        r.status == p.status,
        r.error == p.error,
        match p.content {
            Some(c) => r.bytes == Some(encode_utf8(c@).len() as usize),
            None => r.bytes is None,
        },
{
    let bytes = match &p.content {
        Some(c) => Some(c.as_str().len()),
        None => None,
    };
    EntryJson {
        subdomain: p.subdomain.clone(),
        status: p.status,
        bytes,
        error: p.error.clone(),
    }
}

/// The (target, body) pair an outcome contributes to the analysis stage.
pub open spec fn job_of(p: ProbeResult) -> (Seq<char>, Seq<char>) {
    (p.subdomain@, p.content.unwrap()@)
}

/// The view of one analysis job.
pub open spec fn job_view(j: SuccessJson) -> (Seq<char>, Seq<char>) {
    (j.url@, j.content@)
}

/// The analysis stage's input: the jobs of the successful outcomes, in order.
pub open spec fn jobs_of(ps: Seq<ProbeResult>) -> Seq<(Seq<char>, Seq<char>)>
    decreases ps.len(),
{
    if ps.len() == 0 {
        seq![]
    } else {
        let rest = jobs_of(ps.drop_last());
        if ps.last().is_success() {
            rest.push(job_of(ps.last()))
        } else {
            rest
        }
    }
}

/// Summaries of all outcomes, one per outcome and in the same order.
pub fn entries_of(probes: &Vec<ProbeResult>) -> (r: Vec<EntryJson>)
    ensures
        r@.len() == probes@.len(),
        forall|k: int|
            0 <= k < r@.len() ==> {
                &&& (#[trigger] r@[k]).subdomain == probes@[k].subdomain
                &&& r@[k].status == probes@[k].status
                &&& r@[k].error == probes@[k].error
                &&& r@[k].bytes is Some == probes@[k].content is Some
            },
{
    let mut r: Vec<EntryJson> = Vec::new();
    let mut i: usize = 0;
    while i < probes.len()
        invariant
            i <= probes@.len(),
            r@.len() == i,
            forall|k: int|
                0 <= k < i ==> {
                    &&& (#[trigger] r@[k]).subdomain == probes@[k].subdomain
                    &&& r@[k].status == probes@[k].status
                    &&& r@[k].error == probes@[k].error
                    &&& r@[k].bytes is Some == probes@[k].content is Some
                },
        decreases probes@.len() - i,
    {
        r.push(entry_of(&probes[i]));
        i += 1;
    }
    r
}

/// The analysis jobs: one per outcome with a status below 400 and a body, in
/// the order of the outcomes.
pub fn success_jobs(probes: &Vec<ProbeResult>) -> (r: Vec<SuccessJson>)
    ensures
        r@.len() == jobs_of(probes@).len(),
        forall|k: int| 0 <= k < r@.len() ==> job_view(#[trigger] r@[k]) == jobs_of(probes@)[k],
{
    let mut r: Vec<SuccessJson> = Vec::new();
    let mut i: usize = 0;
    while i < probes.len()
        invariant
            i <= probes@.len(),
            r@.len() == jobs_of(probes@.take(i as int)).len(),
            forall|k: int|
                0 <= k < r@.len() ==> job_view(#[trigger] r@[k]) == jobs_of(
                    probes@.take(i as int),
                )[k],
        decreases probes@.len() - i,
    {
        let p = &probes[i];
        assert(probes@.take(i + 1).drop_last() =~= probes@.take(i as int));
        assert(probes@.take(i + 1).last() == probes@[i as int]);
        if is_success(p) {
            let content = match &p.content {
                Some(c) => c.clone(),
                None => String::new(),
            };
            r.push(SuccessJson { url: p.subdomain.clone(), content });
        }
        i += 1;
    }
    assert(probes@.take(probes@.len() as int) =~= probes@);
    r
}

/// The analysis stage's input holds exactly the successful outcomes: each
/// outcome with a status below 400 and a body gives a job, and every job comes
/// from such an outcome.
pub proof fn lemma_jobs_are_successes(ps: Seq<ProbeResult>)
    ensures
        forall|i: int|
            0 <= i < ps.len() && (#[trigger] ps[i]).is_success() ==> jobs_of(ps).contains(
                job_of(ps[i]),
            ),
        forall|j: (Seq<char>, Seq<char>)|
            #[trigger] jobs_of(ps).contains(j) ==> exists|i: int|
                0 <= i < ps.len() && (#[trigger] ps[i]).is_success() && job_of(ps[i]) == j,
    decreases ps.len(),
{
    if ps.len() > 0 {
        let init = ps.drop_last();
        lemma_jobs_are_successes(init);
        assert forall|i: int|
            0 <= i < ps.len() && (#[trigger] ps[i]).is_success() implies jobs_of(ps).contains(
                job_of(ps[i]),
            ) by {
            if i < ps.len() - 1 {
                assert(init[i] == ps[i]);
                let k = choose|k: int| 0 <= k < jobs_of(init).len() && jobs_of(init)[k] == job_of(init[i]);
                assert(jobs_of(ps)[k] == job_of(ps[i]));
            } else {
                assert(jobs_of(ps).last() == job_of(ps[i]));
            }
        }
        assert forall|j: (Seq<char>, Seq<char>)|
            #[trigger] jobs_of(ps).contains(j) implies exists|i: int|
                0 <= i < ps.len() && (#[trigger] ps[i]).is_success() && job_of(ps[i]) == j by {
            let k = choose|k: int| 0 <= k < jobs_of(ps).len() && jobs_of(ps)[k] == j;
            if k < jobs_of(init).len() {
                assert(jobs_of(init).contains(j));
                let i = choose|i: int|
                    0 <= i < init.len() && (#[trigger] init[i]).is_success() && job_of(init[i]) == j;
                assert(ps[i] == init[i]);
            } else {
                assert(ps[ps.len() - 1].is_success());
            }
        }
    }
}

} // verus!
