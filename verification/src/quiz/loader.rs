//! What becomes of the quiz files read at startup: which files count, and
//! how their outcomes combine into the list of quizzes or the error shown.
use vstd::prelude::*;

use crate::error::{QuizError, QuizResult};
use crate::perm::{in_image, is_permutation};
use crate::quiz::models::{quizzes_view, Quiz, QuizView};

verus! {

/// `a` comes before `b` or equals it, comparing character by character by
/// code point (the order of their UTF-8 bytes, as `String`'s `Ord` has it).
pub open spec fn text_le(a: Seq<char>, b: Seq<char>) -> bool
    decreases a.len(),
{
    if a.len() == 0 {
        true
    } else if b.len() == 0 {
        false
    } else if a[0] != b[0] {
        a[0] < b[0]
    } else {
        text_le(a.drop_first(), b.drop_first())
    }
}

/// Quizzes in order of their names.
pub open spec fn sorted_by_name(s: Seq<QuizView>) -> bool {
    forall|i: int, j: int| 0 <= i < j < s.len() ==> text_le(#[trigger] s[i].name, #[trigger] s[j].name)
}

/// `after` is `before` sorted by name, quizzes of equal names keeping their
/// order (a stable sort).
pub open spec fn stable_sorted_by_name(after: Seq<QuizView>, before: Seq<QuizView>) -> bool {
    &&& after.len() == before.len()
    &&& sorted_by_name(after)
    &&& exists|p: Seq<int>|
        {
            &&& is_permutation(p, before.len())
            &&& forall|i: int| 0 <= i < after.len() ==> #[trigger] after[i] == before[p[i]]
            &&& forall|i: int, j: int|
                0 <= i < j < after.len() && #[trigger] after[i].name == #[trigger] after[j].name
                    ==> p[i] < p[j]
        }
}

/// Whether a file with this extension holds a quiz: `yaml` or `yml`.
pub open spec fn is_quiz_extension_spec(extension: Option<Seq<char>>) -> bool {
    match extension {
        Some(e) => e == "yaml"@ || e == "yml"@,
        None => false,
    }
}

/// Outcome `i` is the first failed one.
pub open spec fn first_failure(loaded: Seq<QuizResult<Quiz>>, i: int) -> bool {
    &&& 0 <= i < loaded.len()
    &&& loaded[i] is Err
    &&& forall|j: int| 0 <= j < i ==> (#[trigger] loaded[j]) is Ok
}

/// The quiz of a successful outcome.
pub open spec fn loaded_quiz(r: QuizResult<Quiz>) -> QuizView {
    match r {
        Ok(q) => q@,
        Err(_) => arbitrary(),
    }
}

/// `r` is what the outcomes `loaded` of the quiz files, in directory order,
/// give: the first failure if any; else no quiz found when there is none;
/// else the quizzes sorted by name.
pub open spec fn collected(loaded: Seq<QuizResult<Quiz>>, r: QuizResult<Vec<Quiz>>) -> bool {
    if exists|i: int| first_failure(loaded, i) {
        let i = choose|i: int| first_failure(loaded, i);
        r matches Err(e) && loaded[i] matches Err(f) && e == f
    } else if loaded.len() == 0 {
        r matches Err(e) && e == QuizError::NoQuizzesFound
    } else {
        r matches Ok(quizzes) && stable_sorted_by_name(
            quizzes_view(quizzes@),
            loaded.map_values(|l: QuizResult<Quiz>| loaded_quiz(l)),
        )
    }
}

proof fn lemma_text_le_reflexive(a: Seq<char>)
    ensures
        text_le(a, a),
    decreases a.len(),
{
    if a.len() > 0 {
        lemma_text_le_reflexive(a.drop_first());
    }
}

proof fn lemma_text_le_transitive(a: Seq<char>, b: Seq<char>, c: Seq<char>)
    requires
        text_le(a, b),
        text_le(b, c),
    ensures
        text_le(a, c),
    decreases a.len(),
{
    if a.len() > 0 && b.len() > 0 && c.len() > 0 && a[0] == b[0] && b[0] == c[0] {
        lemma_text_le_transitive(a.drop_first(), b.drop_first(), c.drop_first());
    }
}

proof fn lemma_text_le_total(a: Seq<char>, b: Seq<char>)
    ensures
        text_le(a, b) || text_le(b, a),
    decreases a.len(),
{
    if a.len() > 0 && b.len() > 0 {
        if a[0] == b[0] {
            lemma_text_le_total(a.drop_first(), b.drop_first());
        }
    }
}

/// Whether `a` comes before `b` or equals it, in the order of `text_le`.
pub fn text_le_exec(a: &str, b: &str) -> (le: bool)
    ensures
        le == text_le(a@, b@),
{
    let n = a.unicode_len();
    let m = b.unicode_len();
    let mut i: usize = 0;
    assert(a@.skip(0) =~= a@);
    assert(b@.skip(0) =~= b@);
    while i < n && i < m
        invariant
            n == a@.len(),
            m == b@.len(),
            i <= n,
            i <= m,
            text_le(a@.skip(i as int), b@.skip(i as int)) == text_le(a@, b@),
        decreases n - i,
    {
        let x = a.get_char(i);
        let y = b.get_char(i);
        assert(a@.skip(i as int)[0] == x && b@.skip(i as int)[0] == y);
        if x != y {
            return x < y;
        }
        assert(a@.skip(i as int).drop_first() =~= a@.skip(i + 1));
        assert(b@.skip(i as int).drop_first() =~= b@.skip(i + 1));
        i = i + 1;
    }
    i == n
}

/// Whether a file with this extension holds a quiz.
pub fn is_quiz_extension(extension: Option<&str>) -> (yes: bool)
    ensures
        yes == is_quiz_extension_spec(
            match extension {
                Some(e) => Some(e@),
                None => None,
            },
        ),
{
    match extension {
        Some(e) => {
            proof {
                reveal_strlit("yaml");
                reveal_strlit("yml");
            }
            let n = e.unicode_len();
            if n == 4 {
                let r = e.get_char(0) == 'y' && e.get_char(1) == 'a' && e.get_char(2) == 'm'
                    && e.get_char(3) == 'l';
                assert(r ==> e@ =~= "yaml"@);
                r
            } else if n == 3 {
                let r = e.get_char(0) == 'y' && e.get_char(1) == 'm' && e.get_char(2) == 'l';
                assert(r ==> e@ =~= "yml"@);
                r
            } else {
                false
            }
        },
        None => false,
    }
}

/// Sorts quizzes by name, keeping the order of quizzes of equal names.
pub fn sort_by_name(quizzes: Vec<Quiz>) -> (sorted: Vec<Quiz>)
    ensures
        stable_sorted_by_name(quizzes_view(sorted@), quizzes_view(quizzes@)),
{
    let ghost before = quizzes_view(quizzes@);
    assert(before.len() == quizzes.len());
    let mut sorted: Vec<Quiz> = Vec::new();
    let mut rest = quizzes;
    let ghost mut p: Seq<int> = seq![];
    let mut k: usize = 0;
    while rest.len() > 0
        invariant
            before.len() == k + rest@.len(),
            before.len() <= usize::MAX,
            quizzes_view(rest@) == before.skip(k as int),
            sorted@.len() == k,
            p.len() == k,
            forall|i: int| 0 <= i < k ==> 0 <= #[trigger] p[i] < k,
            forall|i: int, j: int| 0 <= i < k && 0 <= j < k && i != j ==> p[i] != p[j],
            forall|x: int| 0 <= x < k ==> #[trigger] in_image(p, x),
            forall|i: int| 0 <= i < k ==> #[trigger] sorted@[i]@ == before[p[i]],
            sorted_by_name(quizzes_view(sorted@)),
            forall|i: int, j: int|
                0 <= i < j < k && #[trigger] sorted@[i]@.name == #[trigger] sorted@[j]@.name ==> p[i]
                    < p[j],
        decreases rest@.len(),
    {
        let ghost old_sorted = sorted@;
        let ghost old_p = p;
        let ghost old_rest = rest@;
        let q = rest.remove(0);
        assert(quizzes_view(old_rest)[0] == old_rest[0]@);
        assert(before.skip(k as int)[0] == before[k as int]);
        assert(q@ == before[k as int]);
        assert(quizzes_view(rest@) =~= before.skip(k + 1)) by {
            assert forall|i: int| 0 <= i < rest@.len() implies quizzes_view(rest@)[i] == before.skip(k + 1)[i] by {
                assert(rest@[i] == old_rest[i + 1]);
                assert(quizzes_view(old_rest)[i + 1] == old_rest[i + 1]@);
                assert(before.skip(k as int)[i + 1] == before.skip(k + 1)[i]);
            }
        }
        let mut pos: usize = 0;
        while pos < sorted.len() && text_le_exec(
            sorted[pos].metadata.name.as_str(),
            q.metadata.name.as_str(),
        )
            invariant
                sorted@ == old_sorted,
                pos <= sorted@.len(),
                forall|i: int| 0 <= i < pos ==> text_le(#[trigger] sorted@[i]@.name, q@.name),
            decreases sorted@.len() - pos,
        {
            pos = pos + 1;
        }
        proof {
            let s = quizzes_view(old_sorted);
            assert forall|j: int| pos <= j < old_sorted.len() implies !text_le(
                #[trigger] old_sorted[j]@.name,
                q@.name,
            ) && text_le(q@.name, old_sorted[j]@.name) by {
                assert(!text_le(old_sorted[pos as int]@.name, q@.name));
                lemma_text_le_total(old_sorted[pos as int]@.name, q@.name);
                if j > pos {
                    assert(s[pos as int] == old_sorted[pos as int]@);
                    assert(s[j] == old_sorted[j]@);
                    assert(text_le(s[pos as int].name, s[j].name));
                    lemma_text_le_transitive(q@.name, old_sorted[pos as int]@.name, old_sorted[j]@.name);
                    if text_le(old_sorted[j]@.name, q@.name) {
                        lemma_text_le_transitive(old_sorted[pos as int]@.name, old_sorted[j]@.name, q@.name);
                    }
                }
            }
        }
        sorted.insert(pos, q);
        proof {
            p = old_p.insert(pos as int, k as int);
            let s = quizzes_view(sorted@);
            let os = quizzes_view(old_sorted);
            assert(sorted@ == old_sorted.insert(pos as int, q));
            assert forall|i: int| 0 <= i < k + 1 implies #[trigger] sorted@[i]@ == before[p[i]] by {
                if i < pos {
                    assert(sorted@[i] == old_sorted[i]);
                } else if i > pos {
                    assert(sorted@[i] == old_sorted[i - 1]);
                }
            }
            assert forall|i: int, j: int| 0 <= i < j < s.len() implies text_le(
                #[trigger] s[i].name,
                #[trigger] s[j].name,
            ) by {
                assert(s[i] == sorted@[i]@);
                assert(s[j] == sorted@[j]@);
                if i < pos && j < pos {
                    assert(os[i] == old_sorted[i]@);
                    assert(os[j] == old_sorted[j]@);
                } else if i < pos && j == pos {
                } else if i < pos && j > pos {
                    assert(os[i] == old_sorted[i]@);
                    assert(os[j - 1] == old_sorted[j - 1]@);
                } else if i == pos {
                    assert(sorted@[j] == old_sorted[j - 1]);
                } else {
                    assert(os[i - 1] == old_sorted[i - 1]@);
                    assert(os[j - 1] == old_sorted[j - 1]@);
                }
            }
            assert forall|i: int| 0 <= i < k + 1 implies 0 <= #[trigger] p[i] < k + 1 by {
                if i < pos {
                    assert(p[i] == old_p[i]);
                } else if i > pos {
                    assert(p[i] == old_p[i - 1]);
                }
            }
            assert forall|i: int, j: int| 0 <= i < k + 1 && 0 <= j < k + 1 && i != j implies p[i]
                != p[j] by {
                if i != pos && j != pos {
                    let oi = if i < pos { i } else { i - 1 };
                    let oj = if j < pos { j } else { j - 1 };
                    assert(p[i] == old_p[oi]);
                    assert(p[j] == old_p[oj]);
                } else if i == pos {
                    let oj = if j < pos { j } else { j - 1 };
                    assert(p[j] == old_p[oj]);
                } else {
                    let oi = if i < pos { i } else { i - 1 };
                    assert(p[i] == old_p[oi]);
                }
            }
            assert forall|x: int| 0 <= x < k + 1 implies #[trigger] in_image(p, x) by {
                if x == k {
                    assert(p[pos as int] == k);
                } else {
                    assert(in_image(old_p, x));
                    let i = choose|i: int| 0 <= i < old_p.len() && old_p[i] == x;
                    if i < pos {
                        assert(p[i] == x);
                    } else {
                        assert(p[i + 1] == x);
                    }
                }
            }
            assert forall|i: int, j: int|
                0 <= i < j < k + 1 && #[trigger] sorted@[i]@.name == #[trigger] sorted@[j]@.name
                    implies p[i] < p[j] by {
                if i < pos && j < pos {
                } else if i < pos && j == pos {
                    assert(p[i] == old_p[i]);
                } else if i < pos && j > pos {
                    assert(sorted@[j] == old_sorted[j - 1]);
                    assert(p[j] == old_p[j - 1]);
                } else if i == pos {
                    assert(sorted@[j] == old_sorted[j - 1]);
                    assert(sorted@[j]@.name != q@.name) by {
                        if sorted@[j]@.name == q@.name {
                            lemma_text_le_reflexive(q@.name);
                        }
                    }
                } else {
                    assert(sorted@[i] == old_sorted[i - 1]);
                    assert(sorted@[j] == old_sorted[j - 1]);
                    assert(p[i] == old_p[i - 1]);
                    assert(p[j] == old_p[j - 1]);
                }
            }
        }
        k = k + 1;
    }
    proof {
        let s = quizzes_view(sorted@);
        assert forall|i: int| 0 <= i < s.len() implies #[trigger] s[i] == before[p[i]] by {
            assert(s[i] == sorted@[i]@);
        }
        assert forall|i: int, j: int| 0 <= i < j < s.len() && #[trigger] s[i].name == #[trigger] s[j].name
            implies p[i] < p[j] by {
            assert(s[i] == sorted@[i]@);
            assert(s[j] == sorted@[j]@);
        }
        assert(is_permutation(p, before.len()));
    }
    sorted
}

/// Combines the outcomes of loading each quiz file, in directory order: the
/// first error wins; with no error and no quiz, no quiz was found; otherwise
/// the quizzes come sorted by name.
pub fn collect_quizzes(loaded: Vec<QuizResult<Quiz>>) -> (r: QuizResult<Vec<Quiz>>)
    ensures
        collected(loaded@, r),
{
    let ghost all = loaded@;
    let mut i: usize = 0;
    while i < loaded.len()
        invariant
            all == loaded@,
            i <= loaded.len(),
            forall|j: int| 0 <= j < i ==> (#[trigger] all[j]) is Ok,
        decreases loaded.len() - i,
    {
        if loaded[i].is_err() {
            assert(first_failure(all, i as int));
            let mut loaded = loaded;
            let failed = loaded.remove(i);
            proof {
                let c = choose|c: int| first_failure(all, c);
                assert(c == i) by {
                    if c < i {
                        assert(all[c] is Ok);
                    }
                    if c > i {
                        assert(all[i as int] is Ok);
                    }
                }
            }
            return match failed {
                Err(e) => Err(e),
                Ok(q) => {
                    proof {
                        assert(false);
                    }
                    Ok(Vec::new())
                },
            };
        }
        i = i + 1;
    }
    assert(!exists|c: int| first_failure(all, c));
    let ghost oks = all.map_values(|l: QuizResult<Quiz>| loaded_quiz(l));
    let mut quizzes: Vec<Quiz> = Vec::new();
    let mut rest = loaded;
    let mut k: usize = 0;
    while rest.len() > 0
        invariant
            all.len() == k + rest@.len(),
            rest@ == all.skip(k as int),
            forall|j: int| 0 <= j < all.len() ==> (#[trigger] all[j]) is Ok,
            quizzes_view(quizzes@) == oks.take(k as int),
            quizzes@.len() == k,
            oks == all.map_values(|l: QuizResult<Quiz>| loaded_quiz(l)),
            all.len() <= usize::MAX,
        decreases rest@.len(),
    {
        let ghost old_rest = rest@;
        let item = rest.remove(0);
        assert(item == all[k as int]);
        assert(rest@ =~= all.skip(k + 1));
        match item {
            Ok(q) => {
                let ghost before_push = quizzes@;
                assert(oks[k as int] == loaded_quiz(all[k as int]));
                quizzes.push(q);
                assert forall|j: int| 0 <= j < k + 1 implies quizzes_view(quizzes@)[j] == oks.take(k + 1)[j] by {
                    if j < k {
                        assert(quizzes@[j] == before_push[j]);
                        assert(quizzes_view(before_push)[j] == oks.take(k as int)[j]);
                    }
                }
                assert(quizzes_view(quizzes@) =~= oks.take(k + 1));
            },
            Err(e) => {
                proof {
                    assert(false);
                }
                return Err(e);
            },
        }
        k = k + 1;
    }
    assert(oks.take(k as int) =~= oks);
    if quizzes.len() == 0 {
        return Err(QuizError::NoQuizzesFound);
    }
    Ok(sort_by_name(quizzes))
}

} // verus!
