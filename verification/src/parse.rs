use vstd::prelude::*;

use crate::backend::Backend;
use crate::config::Quality;
use crate::error::Error;

verus! {

/// The code of `c` with ASCII upper-case letters mapped to lower case.
pub open spec fn ascii_lower(c: char) -> int {
    if 'A' <= c && c <= 'Z' {
        c as int + 32
    } else {
        c as int
    }
}

/// `a` and `b` are equal up to the case of ASCII letters.
pub open spec fn eq_ignore_ascii_case(a: Seq<char>, b: Seq<char>) -> bool {
    &&& a.len() == b.len()
    &&& forall|i: int| 0 <= i < a.len() ==> ascii_lower(#[trigger] a[i]) == ascii_lower(b[i])
}

fn ascii_lower_code(c: char) -> (x: u32)
    ensures
        x == ascii_lower(c),
{
    let x = c as u32;
    if 65 <= x && x <= 90 {
        x + 32
    } else {
        x
    }
}

/// `a` and `b` hold the same characters.
pub fn str_equals(a: &str, b: &str) -> (r: bool)
    ensures
        r == (a@ == b@),
{
    let n = a.unicode_len();
    if n != b.unicode_len() {
        return false;
    }
    let mut i: usize = 0;
    while i < n
        invariant
            n == a@.len(),
            n == b@.len(),
            0 <= i <= n,
            forall|j: int| 0 <= j < i ==> a@[j] == b@[j],
        decreases n - i,
    {
        if a.get_char(i) != b.get_char(i) {
            return false;
        }
        i = i + 1;
    }
    assert(a@ =~= b@);
    true
}

/// `a` and `b` are equal up to the case of ASCII letters.
pub fn str_eq_ignore_ascii_case(a: &str, b: &str) -> (r: bool)
    ensures
        r == eq_ignore_ascii_case(a@, b@),
{
    let n = a.unicode_len();
    if n != b.unicode_len() {
        return false;
    }
    let mut i: usize = 0;
    while i < n
        invariant
            n == a@.len(),
            n == b@.len(),
            0 <= i <= n,
            forall|j: int| 0 <= j < i ==> ascii_lower(#[trigger] a@[j]) == ascii_lower(b@[j]),
        decreases n - i,
    {
        if ascii_lower_code(a.get_char(i)) != ascii_lower_code(b.get_char(i)) {
            return false;
        }
        i = i + 1;
    }
    true
}

/// The quality that the command line spells `name`.
pub open spec fn spec_cli_quality(name: Seq<char>) -> Option<Quality> {
    if name == "fast"@ {
        Some(Quality::Fast)
    } else if name == "balanced"@ {
        Some(Quality::Balanced)
    } else if name == "best"@ {
        Some(Quality::Best)
    } else {
        None
    }
}

/// The backend that the command line spells `name`.
pub open spec fn spec_cli_backend(name: Seq<char>) -> Option<Backend> {
    if name == "auto"@ {
        Some(Backend::Auto)
    } else if name == "scalar"@ {
        Some(Backend::Scalar)
    } else if name == "avx2"@ {
        Some(Backend::Avx2)
    } else if name == "avx512"@ {
        Some(Backend::Avx512)
    } else if name == "neon"@ {
        Some(Backend::Neon)
    } else if name == "rvv"@ {
        Some(Backend::Rvv)
    } else {
        None
    }
}

/// Parses a `--quality` argument: `fast`, `balanced` or `best`, exactly.
pub fn parse_quality(value: &str) -> (r: Result<Quality, Error>)
    ensures
        match spec_cli_quality(value@) {
            Some(q) => r == Ok::<Quality, Error>(q),
            None => r matches Err(Error::Cli(message)) && message@ == "unknown quality: "@
                + value@,
        },
{
    if str_equals(value, "fast") {
        Ok(Quality::Fast)
    } else if str_equals(value, "balanced") {
        Ok(Quality::Balanced)
    } else if str_equals(value, "best") {
        Ok(Quality::Best)
    } else {
        let mut message = String::from_str("unknown quality: ");
        message.append(value);
        Err(Error::Cli(message))
    }
}

/// Parses a `--backend` argument: `auto`, `scalar`, `avx2`, `avx512`,
/// `neon` or `rvv`, exactly.
pub fn parse_backend(value: &str) -> (r: Result<Backend, Error>)
    ensures
        match spec_cli_backend(value@) {
            Some(b) => r == Ok::<Backend, Error>(b),
            None => r matches Err(Error::Cli(message)) && message@ == "unknown backend: "@
                + value@,
        },
{
    if str_equals(value, "auto") {
        Ok(Backend::Auto)
    } else if str_equals(value, "scalar") {
        Ok(Backend::Scalar)
    } else if str_equals(value, "avx2") {
        Ok(Backend::Avx2)
    } else if str_equals(value, "avx512") {
        Ok(Backend::Avx512)
    } else if str_equals(value, "neon") {
        Ok(Backend::Neon)
    } else if str_equals(value, "rvv") {
        Ok(Backend::Rvv)
    } else {
        let mut message = String::from_str("unknown backend: ");
        message.append(value);
        Err(Error::Cli(message))
    }
}

/// The quality named `name`, ignoring ASCII case.
pub open spec fn spec_quality_from_name(name: Seq<char>) -> Option<Quality> {
    if eq_ignore_ascii_case(name, "fast"@) {
        Some(Quality::Fast)
    } else if eq_ignore_ascii_case(name, "balanced"@) {
        Some(Quality::Balanced)
    } else if eq_ignore_ascii_case(name, "best"@) {
        Some(Quality::Best)
    } else {
        None
    }
}

/// The backend named `name`, ignoring ASCII case; `avx2+fma` and `avx512f`
/// are accepted beside `avx2` and `avx512`.
pub open spec fn spec_backend_from_name(name: Seq<char>) -> Option<Backend> {
    if eq_ignore_ascii_case(name, "auto"@) {
        Some(Backend::Auto)
    } else if eq_ignore_ascii_case(name, "scalar"@) {
        Some(Backend::Scalar)
    } else if eq_ignore_ascii_case(name, "avx2"@) || eq_ignore_ascii_case(name, "avx2+fma"@) {
        Some(Backend::Avx2)
    } else if eq_ignore_ascii_case(name, "avx512"@) || eq_ignore_ascii_case(name, "avx512f"@) {
        Some(Backend::Avx512)
    } else if eq_ignore_ascii_case(name, "neon"@) {
        Some(Backend::Neon)
    } else if eq_ignore_ascii_case(name, "rvv"@) {
        Some(Backend::Rvv)
    } else {
        None
    }
}

/// Looks up a quality by name, ignoring ASCII case.
pub fn quality_from_name(value: &str) -> (r: Option<Quality>)
    ensures
        r == spec_quality_from_name(value@),
{
    if str_eq_ignore_ascii_case(value, "fast") {
        Some(Quality::Fast)
    } else if str_eq_ignore_ascii_case(value, "balanced") {
        Some(Quality::Balanced)
    } else if str_eq_ignore_ascii_case(value, "best") {
        Some(Quality::Best)
    } else {
        None
    }
}

/// Looks up a backend by name or alias, ignoring ASCII case.
pub fn backend_from_name(value: &str) -> (r: Option<Backend>)
    ensures
        r == spec_backend_from_name(value@),
{
    if str_eq_ignore_ascii_case(value, "auto") {
        Some(Backend::Auto)
    } else if str_eq_ignore_ascii_case(value, "scalar") {
        Some(Backend::Scalar)
    } else if str_eq_ignore_ascii_case(value, "avx2") || str_eq_ignore_ascii_case(
        value,
        "avx2+fma",
    ) {
        Some(Backend::Avx2)
    } else if str_eq_ignore_ascii_case(value, "avx512") || str_eq_ignore_ascii_case(
        value,
        "avx512f",
    ) {
        Some(Backend::Avx512)
    } else if str_eq_ignore_ascii_case(value, "neon") {
        Some(Backend::Neon)
    } else if str_eq_ignore_ascii_case(value, "rvv") {
        Some(Backend::Rvv)
    } else {
        None
    }
}

/// Equality up to ASCII case is an equivalence: texts equal up to case to
/// the same text are equal up to case to each other.
proof fn lemma_eq_ignore_case_through(a: Seq<char>, b: Seq<char>, n: Seq<char>)
    requires
        eq_ignore_ascii_case(a, b),
    ensures
        eq_ignore_ascii_case(a, n) == eq_ignore_ascii_case(b, n),
{
    if eq_ignore_ascii_case(a, n) {
        assert forall|i: int| 0 <= i < b.len() implies ascii_lower(#[trigger] b[i]) == ascii_lower(
            n[i],
        ) by {
            assert(ascii_lower(a[i]) == ascii_lower(b[i]));
            assert(ascii_lower(a[i]) == ascii_lower(n[i]));
        }
    }
    if eq_ignore_ascii_case(b, n) {
        assert forall|i: int| 0 <= i < a.len() implies ascii_lower(#[trigger] a[i]) == ascii_lower(
            n[i],
        ) by {
            assert(ascii_lower(a[i]) == ascii_lower(b[i]));
            assert(ascii_lower(b[i]) == ascii_lower(n[i]));
        }
    }
}

/// Looking up a quality or backend by name ignores ASCII case: two names
/// that differ only in the case of their letters find the same thing (or
/// both nothing).
pub proof fn lemma_names_ignore_case(a: Seq<char>, b: Seq<char>)
    requires
        eq_ignore_ascii_case(a, b),
    ensures
        spec_quality_from_name(a) == spec_quality_from_name(b),
        spec_backend_from_name(a) == spec_backend_from_name(b),
{
    lemma_eq_ignore_case_through(a, b, "fast"@);
    lemma_eq_ignore_case_through(a, b, "balanced"@);
    lemma_eq_ignore_case_through(a, b, "best"@);
    lemma_eq_ignore_case_through(a, b, "auto"@);
    lemma_eq_ignore_case_through(a, b, "scalar"@);
    lemma_eq_ignore_case_through(a, b, "avx2"@);
    lemma_eq_ignore_case_through(a, b, "avx2+fma"@);
    lemma_eq_ignore_case_through(a, b, "avx512"@);
    lemma_eq_ignore_case_through(a, b, "avx512f"@);
    lemma_eq_ignore_case_through(a, b, "neon"@);
    lemma_eq_ignore_case_through(a, b, "rvv"@);
}

/// Every quality and backend is found under its lower-case name, and under
/// any other spelling of it that differs only in case.
pub proof fn lemma_names_find_their_values(name: Seq<char>)
    ensures
        eq_ignore_ascii_case(name, "fast"@) ==> spec_quality_from_name(name) == Some(Quality::Fast),
        eq_ignore_ascii_case(name, "balanced"@) ==> spec_quality_from_name(name) == Some(
            Quality::Balanced,
        ),
        eq_ignore_ascii_case(name, "best"@) ==> spec_quality_from_name(name) == Some(Quality::Best),
        eq_ignore_ascii_case(name, "auto"@) ==> spec_backend_from_name(name) == Some(Backend::Auto),
        eq_ignore_ascii_case(name, "scalar"@) ==> spec_backend_from_name(name) == Some(
            Backend::Scalar,
        ),
        eq_ignore_ascii_case(name, "avx2"@) || eq_ignore_ascii_case(name, "avx2+fma"@)
            ==> spec_backend_from_name(name) == Some(Backend::Avx2),
        eq_ignore_ascii_case(name, "avx512"@) || eq_ignore_ascii_case(name, "avx512f"@)
            ==> spec_backend_from_name(name) == Some(Backend::Avx512),
        eq_ignore_ascii_case(name, "neon"@) ==> spec_backend_from_name(name) == Some(Backend::Neon),
        eq_ignore_ascii_case(name, "rvv"@) ==> spec_backend_from_name(name) == Some(Backend::Rvv),
{
    reveal_strlit("fast");
    reveal_strlit("balanced");
    reveal_strlit("best");
    reveal_strlit("auto");
    reveal_strlit("scalar");
    reveal_strlit("avx2");
    reveal_strlit("avx2+fma");
    reveal_strlit("avx512");
    reveal_strlit("avx512f");
    reveal_strlit("neon");
    reveal_strlit("rvv");
    assert("fast"@.len() == 4);
    assert("balanced"@.len() == 8);
    assert("best"@.len() == 4);
    assert("auto"@.len() == 4);
    assert("scalar"@.len() == 6);
    assert("avx2"@.len() == 4);
    assert("avx2+fma"@.len() == 8);
    assert("avx512"@.len() == 6);
    assert("avx512f"@.len() == 7);
    assert("neon"@.len() == 4);
    assert("rvv"@.len() == 3);
    assert(!eq_ignore_ascii_case("fast"@, "balanced"@));
    if eq_ignore_ascii_case(name, "fast"@) {
        lemma_eq_ignore_case_through(name, "fast"@, "balanced"@);
    }
    assert(ascii_lower("fast"@[0]) != ascii_lower("best"@[0]));
    assert(!eq_ignore_ascii_case("fast"@, "best"@));
    if eq_ignore_ascii_case(name, "fast"@) {
        lemma_eq_ignore_case_through(name, "fast"@, "best"@);
    }
    assert(!eq_ignore_ascii_case("balanced"@, "fast"@));
    if eq_ignore_ascii_case(name, "balanced"@) {
        lemma_eq_ignore_case_through(name, "balanced"@, "fast"@);
    }
    assert(!eq_ignore_ascii_case("balanced"@, "best"@));
    if eq_ignore_ascii_case(name, "balanced"@) {
        lemma_eq_ignore_case_through(name, "balanced"@, "best"@);
    }
    assert(ascii_lower("best"@[0]) != ascii_lower("fast"@[0]));
    assert(!eq_ignore_ascii_case("best"@, "fast"@));
    if eq_ignore_ascii_case(name, "best"@) {
        lemma_eq_ignore_case_through(name, "best"@, "fast"@);
    }
    assert(!eq_ignore_ascii_case("best"@, "balanced"@));
    if eq_ignore_ascii_case(name, "best"@) {
        lemma_eq_ignore_case_through(name, "best"@, "balanced"@);
    }
    assert(!eq_ignore_ascii_case("auto"@, "scalar"@));
    if eq_ignore_ascii_case(name, "auto"@) {
        lemma_eq_ignore_case_through(name, "auto"@, "scalar"@);
    }
    assert(ascii_lower("auto"@[1]) != ascii_lower("avx2"@[1]));
    assert(!eq_ignore_ascii_case("auto"@, "avx2"@));
    if eq_ignore_ascii_case(name, "auto"@) {
        lemma_eq_ignore_case_through(name, "auto"@, "avx2"@);
    }
    assert(!eq_ignore_ascii_case("auto"@, "avx2+fma"@));
    if eq_ignore_ascii_case(name, "auto"@) {
        lemma_eq_ignore_case_through(name, "auto"@, "avx2+fma"@);
    }
    assert(!eq_ignore_ascii_case("auto"@, "avx512"@));
    if eq_ignore_ascii_case(name, "auto"@) {
        lemma_eq_ignore_case_through(name, "auto"@, "avx512"@);
    }
    assert(!eq_ignore_ascii_case("auto"@, "avx512f"@));
    if eq_ignore_ascii_case(name, "auto"@) {
        lemma_eq_ignore_case_through(name, "auto"@, "avx512f"@);
    }
    assert(ascii_lower("auto"@[0]) != ascii_lower("neon"@[0]));
    assert(!eq_ignore_ascii_case("auto"@, "neon"@));
    if eq_ignore_ascii_case(name, "auto"@) {
        lemma_eq_ignore_case_through(name, "auto"@, "neon"@);
    }
    assert(!eq_ignore_ascii_case("auto"@, "rvv"@));
    if eq_ignore_ascii_case(name, "auto"@) {
        lemma_eq_ignore_case_through(name, "auto"@, "rvv"@);
    }
    assert(!eq_ignore_ascii_case("scalar"@, "auto"@));
    if eq_ignore_ascii_case(name, "scalar"@) {
        lemma_eq_ignore_case_through(name, "scalar"@, "auto"@);
    }
    assert(!eq_ignore_ascii_case("scalar"@, "avx2"@));
    if eq_ignore_ascii_case(name, "scalar"@) {
        lemma_eq_ignore_case_through(name, "scalar"@, "avx2"@);
    }
    assert(!eq_ignore_ascii_case("scalar"@, "avx2+fma"@));
    if eq_ignore_ascii_case(name, "scalar"@) {
        lemma_eq_ignore_case_through(name, "scalar"@, "avx2+fma"@);
    }
    assert(ascii_lower("scalar"@[0]) != ascii_lower("avx512"@[0]));
    assert(!eq_ignore_ascii_case("scalar"@, "avx512"@));
    if eq_ignore_ascii_case(name, "scalar"@) {
        lemma_eq_ignore_case_through(name, "scalar"@, "avx512"@);
    }
    assert(!eq_ignore_ascii_case("scalar"@, "avx512f"@));
    if eq_ignore_ascii_case(name, "scalar"@) {
        lemma_eq_ignore_case_through(name, "scalar"@, "avx512f"@);
    }
    assert(!eq_ignore_ascii_case("scalar"@, "neon"@));
    if eq_ignore_ascii_case(name, "scalar"@) {
        lemma_eq_ignore_case_through(name, "scalar"@, "neon"@);
    }
    assert(!eq_ignore_ascii_case("scalar"@, "rvv"@));
    if eq_ignore_ascii_case(name, "scalar"@) {
        lemma_eq_ignore_case_through(name, "scalar"@, "rvv"@);
    }
    assert(ascii_lower("avx2"@[1]) != ascii_lower("auto"@[1]));
    assert(!eq_ignore_ascii_case("avx2"@, "auto"@));
    if eq_ignore_ascii_case(name, "avx2"@) {
        lemma_eq_ignore_case_through(name, "avx2"@, "auto"@);
    }
    assert(!eq_ignore_ascii_case("avx2"@, "scalar"@));
    if eq_ignore_ascii_case(name, "avx2"@) {
        lemma_eq_ignore_case_through(name, "avx2"@, "scalar"@);
    }
    assert(!eq_ignore_ascii_case("avx2"@, "avx2+fma"@));
    if eq_ignore_ascii_case(name, "avx2"@) {
        lemma_eq_ignore_case_through(name, "avx2"@, "avx2+fma"@);
    }
    assert(!eq_ignore_ascii_case("avx2"@, "avx512"@));
    if eq_ignore_ascii_case(name, "avx2"@) {
        lemma_eq_ignore_case_through(name, "avx2"@, "avx512"@);
    }
    assert(!eq_ignore_ascii_case("avx2"@, "avx512f"@));
    if eq_ignore_ascii_case(name, "avx2"@) {
        lemma_eq_ignore_case_through(name, "avx2"@, "avx512f"@);
    }
    assert(ascii_lower("avx2"@[0]) != ascii_lower("neon"@[0]));
    assert(!eq_ignore_ascii_case("avx2"@, "neon"@));
    if eq_ignore_ascii_case(name, "avx2"@) {
        lemma_eq_ignore_case_through(name, "avx2"@, "neon"@);
    }
    assert(!eq_ignore_ascii_case("avx2"@, "rvv"@));
    if eq_ignore_ascii_case(name, "avx2"@) {
        lemma_eq_ignore_case_through(name, "avx2"@, "rvv"@);
    }
    assert(!eq_ignore_ascii_case("avx2+fma"@, "auto"@));
    if eq_ignore_ascii_case(name, "avx2+fma"@) {
        lemma_eq_ignore_case_through(name, "avx2+fma"@, "auto"@);
    }
    assert(!eq_ignore_ascii_case("avx2+fma"@, "scalar"@));
    if eq_ignore_ascii_case(name, "avx2+fma"@) {
        lemma_eq_ignore_case_through(name, "avx2+fma"@, "scalar"@);
    }
    assert(!eq_ignore_ascii_case("avx2+fma"@, "avx2"@));
    if eq_ignore_ascii_case(name, "avx2+fma"@) {
        lemma_eq_ignore_case_through(name, "avx2+fma"@, "avx2"@);
    }
    assert(!eq_ignore_ascii_case("avx2+fma"@, "avx512"@));
    if eq_ignore_ascii_case(name, "avx2+fma"@) {
        lemma_eq_ignore_case_through(name, "avx2+fma"@, "avx512"@);
    }
    assert(!eq_ignore_ascii_case("avx2+fma"@, "avx512f"@));
    if eq_ignore_ascii_case(name, "avx2+fma"@) {
        lemma_eq_ignore_case_through(name, "avx2+fma"@, "avx512f"@);
    }
    assert(!eq_ignore_ascii_case("avx2+fma"@, "neon"@));
    if eq_ignore_ascii_case(name, "avx2+fma"@) {
        lemma_eq_ignore_case_through(name, "avx2+fma"@, "neon"@);
    }
    assert(!eq_ignore_ascii_case("avx2+fma"@, "rvv"@));
    if eq_ignore_ascii_case(name, "avx2+fma"@) {
        lemma_eq_ignore_case_through(name, "avx2+fma"@, "rvv"@);
    }
    assert(!eq_ignore_ascii_case("avx512"@, "auto"@));
    if eq_ignore_ascii_case(name, "avx512"@) {
        lemma_eq_ignore_case_through(name, "avx512"@, "auto"@);
    }
    assert(ascii_lower("avx512"@[0]) != ascii_lower("scalar"@[0]));
    assert(!eq_ignore_ascii_case("avx512"@, "scalar"@));
    if eq_ignore_ascii_case(name, "avx512"@) {
        lemma_eq_ignore_case_through(name, "avx512"@, "scalar"@);
    }
    assert(!eq_ignore_ascii_case("avx512"@, "avx2"@));
    if eq_ignore_ascii_case(name, "avx512"@) {
        lemma_eq_ignore_case_through(name, "avx512"@, "avx2"@);
    }
    assert(!eq_ignore_ascii_case("avx512"@, "avx2+fma"@));
    if eq_ignore_ascii_case(name, "avx512"@) {
        lemma_eq_ignore_case_through(name, "avx512"@, "avx2+fma"@);
    }
    assert(!eq_ignore_ascii_case("avx512"@, "avx512f"@));
    if eq_ignore_ascii_case(name, "avx512"@) {
        lemma_eq_ignore_case_through(name, "avx512"@, "avx512f"@);
    }
    assert(!eq_ignore_ascii_case("avx512"@, "neon"@));
    if eq_ignore_ascii_case(name, "avx512"@) {
        lemma_eq_ignore_case_through(name, "avx512"@, "neon"@);
    }
    assert(!eq_ignore_ascii_case("avx512"@, "rvv"@));
    if eq_ignore_ascii_case(name, "avx512"@) {
        lemma_eq_ignore_case_through(name, "avx512"@, "rvv"@);
    }
    assert(!eq_ignore_ascii_case("avx512f"@, "auto"@));
    if eq_ignore_ascii_case(name, "avx512f"@) {
        lemma_eq_ignore_case_through(name, "avx512f"@, "auto"@);
    }
    assert(!eq_ignore_ascii_case("avx512f"@, "scalar"@));
    if eq_ignore_ascii_case(name, "avx512f"@) {
        lemma_eq_ignore_case_through(name, "avx512f"@, "scalar"@);
    }
    assert(!eq_ignore_ascii_case("avx512f"@, "avx2"@));
    if eq_ignore_ascii_case(name, "avx512f"@) {
        lemma_eq_ignore_case_through(name, "avx512f"@, "avx2"@);
    }
    assert(!eq_ignore_ascii_case("avx512f"@, "avx2+fma"@));
    if eq_ignore_ascii_case(name, "avx512f"@) {
        lemma_eq_ignore_case_through(name, "avx512f"@, "avx2+fma"@);
    }
    assert(!eq_ignore_ascii_case("avx512f"@, "avx512"@));
    if eq_ignore_ascii_case(name, "avx512f"@) {
        lemma_eq_ignore_case_through(name, "avx512f"@, "avx512"@);
    }
    assert(!eq_ignore_ascii_case("avx512f"@, "neon"@));
    if eq_ignore_ascii_case(name, "avx512f"@) {
        lemma_eq_ignore_case_through(name, "avx512f"@, "neon"@);
    }
    assert(!eq_ignore_ascii_case("avx512f"@, "rvv"@));
    if eq_ignore_ascii_case(name, "avx512f"@) {
        lemma_eq_ignore_case_through(name, "avx512f"@, "rvv"@);
    }
    assert(ascii_lower("neon"@[0]) != ascii_lower("auto"@[0]));
    assert(!eq_ignore_ascii_case("neon"@, "auto"@));
    if eq_ignore_ascii_case(name, "neon"@) {
        lemma_eq_ignore_case_through(name, "neon"@, "auto"@);
    }
    assert(!eq_ignore_ascii_case("neon"@, "scalar"@));
    if eq_ignore_ascii_case(name, "neon"@) {
        lemma_eq_ignore_case_through(name, "neon"@, "scalar"@);
    }
    assert(ascii_lower("neon"@[0]) != ascii_lower("avx2"@[0]));
    assert(!eq_ignore_ascii_case("neon"@, "avx2"@));
    if eq_ignore_ascii_case(name, "neon"@) {
        lemma_eq_ignore_case_through(name, "neon"@, "avx2"@);
    }
    assert(!eq_ignore_ascii_case("neon"@, "avx2+fma"@));
    if eq_ignore_ascii_case(name, "neon"@) {
        lemma_eq_ignore_case_through(name, "neon"@, "avx2+fma"@);
    }
    assert(!eq_ignore_ascii_case("neon"@, "avx512"@));
    if eq_ignore_ascii_case(name, "neon"@) {
        lemma_eq_ignore_case_through(name, "neon"@, "avx512"@);
    }
    assert(!eq_ignore_ascii_case("neon"@, "avx512f"@));
    if eq_ignore_ascii_case(name, "neon"@) {
        lemma_eq_ignore_case_through(name, "neon"@, "avx512f"@);
    }
    assert(!eq_ignore_ascii_case("neon"@, "rvv"@));
    if eq_ignore_ascii_case(name, "neon"@) {
        lemma_eq_ignore_case_through(name, "neon"@, "rvv"@);
    }
    assert(!eq_ignore_ascii_case("rvv"@, "auto"@));
    if eq_ignore_ascii_case(name, "rvv"@) {
        lemma_eq_ignore_case_through(name, "rvv"@, "auto"@);
    }
    assert(!eq_ignore_ascii_case("rvv"@, "scalar"@));
    if eq_ignore_ascii_case(name, "rvv"@) {
        lemma_eq_ignore_case_through(name, "rvv"@, "scalar"@);
    }
    assert(!eq_ignore_ascii_case("rvv"@, "avx2"@));
    if eq_ignore_ascii_case(name, "rvv"@) {
        lemma_eq_ignore_case_through(name, "rvv"@, "avx2"@);
    }
    assert(!eq_ignore_ascii_case("rvv"@, "avx2+fma"@));
    if eq_ignore_ascii_case(name, "rvv"@) {
        lemma_eq_ignore_case_through(name, "rvv"@, "avx2+fma"@);
    }
    assert(!eq_ignore_ascii_case("rvv"@, "avx512"@));
    if eq_ignore_ascii_case(name, "rvv"@) {
        lemma_eq_ignore_case_through(name, "rvv"@, "avx512"@);
    }
    assert(!eq_ignore_ascii_case("rvv"@, "avx512f"@));
    if eq_ignore_ascii_case(name, "rvv"@) {
        lemma_eq_ignore_case_through(name, "rvv"@, "avx512f"@);
    }
    assert(!eq_ignore_ascii_case("rvv"@, "neon"@));
    if eq_ignore_ascii_case(name, "rvv"@) {
        lemma_eq_ignore_case_through(name, "rvv"@, "neon"@);
    }
}

} // verus!
