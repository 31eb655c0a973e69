use vstd::prelude::*;
use vstd::string::StrSliceExecFns;
use crate::http::Request;
use crate::store::{lookup, CustomError, MemoryStore, Sample};

verus! {

/// The position of the last `/` among the first `n` characters of `s`, or -1.
pub open spec fn last_slash(s: Seq<char>, n: int) -> int
    decreases n,
{
    if n <= 0 || n > s.len() {
        -1
    } else if s[n - 1] == '/' {
        n - 1
    } else {
        last_slash(s, n - 1)
    }
}

/// The last `/`-separated segment of a path: what follows its last `/`, or the
/// whole path where it has none.
pub open spec fn last_path_segment(s: Seq<char>) -> Seq<char> {
    s.subrange(last_slash(s, s.len() as int) + 1, s.len() as int)
}

/// The error of a request that names no stored sample, or that is not a request.
pub open spec fn is_plain_error(e: CustomError) -> bool {
    e.msg@ == "error"@
}

proof fn lemma_last_slash_bounds(s: Seq<char>, n: int)
    requires
        0 <= n <= s.len(),
    ensures
        -1 <= last_slash(s, n) < n,
        last_slash(s, n) >= 0 ==> s[last_slash(s, n)] == '/',
    decreases n,
{
    if n > 0 && s[n - 1] != '/' {
        lemma_last_slash_bounds(s, n - 1);
    }
}

/// The last segment of a path, which names the sample that a request asks for.
pub fn last_segment(path: &str) -> (segment: String)
    ensures
        segment@ == last_path_segment(path@),
{
    let n = path.unicode_len();
    let mut i: usize = n;
    while i > 0 && path.get_char(i - 1) != '/'
        invariant
            n == path@.len(),
            i <= n,
            last_slash(path@, n as int) == last_slash(path@, i as int),
        decreases i,
    {
        i = i - 1;
    }
    proof {
        lemma_last_slash_bounds(path@, n as int);
    }
    path.substring_char(i, n).to_owned()
}

/// Answers a request for one sample: the sample stored under the last segment of the
/// request's path, or the error `"error"` where there is none, or where what was
/// handed over is not a request.
pub fn get_sample(store: &MemoryStore, request: Option<&Request>) -> (answer: Result<
    Sample,
    CustomError,
>)
    ensures
        match request {
            Some(req) => match lookup(store@, last_path_segment(req.path@)) {
                Some(s) => answer == Ok::<Sample, CustomError>(s),
                None => answer is Err && is_plain_error(answer->Err_0),
            },
            None => answer is Err && is_plain_error(answer->Err_0),
        },
{
    match request {
        Some(req) => {
            let key = last_segment(req.path.as_str());
            let found = store.get(key);
            match found {
                Some(val) => Ok(val),
                None => Err(CustomError { msg: "error".to_owned() }),
            }
        },
        None => Err(CustomError { msg: "error".to_owned() }),
    }
}

/// Answers a request that posts a sample. `body` is the request's body read as a
/// sample, or the message of the error met in reading it; `None` where what was
/// handed over is not a request. A sample read is stored under its name, and the
/// answer is that sample, as `MemoryStore::add` answers it. Otherwise the store is left as it is and the answer is an
/// error: the reading error's message, or `"error"`.
pub fn post_sample(store: &mut MemoryStore, body: Option<Result<Sample, String>>) -> (answer:
    Result<Sample, CustomError>)
    ensures
        match body {
            Some(Ok(s)) => {
                &&& final(store)@ == old(store)@.insert(s.name@, s)
                &&& answer == Ok::<Sample, CustomError>(s)
            },
            Some(Err(msg)) => {
                &&& final(store)@ == old(store)@
                &&& answer is Err
                &&& answer->Err_0.msg == msg
            },
            None => {
                &&& final(store)@ == old(store)@
                &&& answer is Err
                &&& is_plain_error(answer->Err_0)
            },
        },
{
    match body {
        Some(parsed) => match parsed {
            Ok(value) => {
                let key = value.name.clone();
                match store.add(key, value) {
                    Some(val) => Ok(val),
                    None => Err(CustomError { msg: "error in post controller".to_owned() }),
                }
            },
            Err(msg) => Err(CustomError { msg }),
        },
        None => Err(CustomError { msg: "error".to_owned() }),
    }
}

proof fn lemma_last_slash_is(s: Seq<char>, i: int, n: int)
    requires
        0 <= i < n <= s.len(),
        s[i] == '/',
        forall|j: int| i < j < n ==> s[j] != '/',
    ensures
        last_slash(s, n) == i,
    decreases n - i,
{
    if n - 1 > i {
        lemma_last_slash_is(s, i, n - 1);
    }
}

proof fn lemma_no_slash(s: Seq<char>, n: int)
    requires
        0 <= n <= s.len(),
        forall|j: int| 0 <= j < n ==> s[j] != '/',
    ensures
        last_slash(s, n) == -1,
    decreases n,
{
    if n > 0 {
        lemma_no_slash(s, n - 1);
    }
}

/// The segment that names a sample is exactly what follows the last `/` of the path.
pub proof fn law_segment_follows_the_last_slash(s: Seq<char>, i: int)
    requires
        0 <= i < s.len(),
        s[i] == '/',
        forall|j: int| i < j < s.len() ==> s[j] != '/',
    ensures
        last_path_segment(s) == s.subrange(i + 1, s.len() as int),
{
    lemma_last_slash_is(s, i, s.len() as int);
}

/// A path without `/` is its own last segment; so is what follows a leading `/`.
pub proof fn law_segment_of_path_without_slash(t: Seq<char>)
    requires
        forall|j: int| 0 <= j < t.len() ==> t[j] != '/',
    ensures
        last_path_segment(t) == t,
        last_path_segment(seq!['/'] + t) == t,
{
    lemma_no_slash(t, t.len() as int);
    assert(t.subrange(0, t.len() as int) =~= t);
    let s = seq!['/'] + t;
    assert forall|j: int| 0 < j < s.len() implies s[j] != '/' by {
        assert(s[j] == t[j - 1]);
    }
    law_segment_follows_the_last_slash(s, 0);
    assert(s.subrange(1, s.len() as int) =~= t);
}

} // verus!
