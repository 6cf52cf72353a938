//! How lists of classes are searched, filtered, counted and ordered for the
//! lecturer's pages.
use vstd::prelude::*;
use crate::classes::{copy_opt, ClassResponse};
use crate::models::Class;
use crate::text::{
    blank, chars_of, contains_chars, contains_seq, is_blank, lex_le, lowercase, owned, replace_all,
    replace_chars, str_eq, str_le, string_of, to_lowercase,
};

verus! {

/// A copy of a class.
pub fn copy_class(c: &Class) -> (r: Class)
    ensures
        r == *c,
{
    Class {
        class_id: c.class_id,
        module_code: c.module_code.clone(),
        title: c.title.clone(),
        venue: copy_opt(&c.venue),
        description: copy_opt(&c.description),
        recurring: copy_opt(&c.recurring),
        date: c.date.clone(),
        time: c.time.clone(),
        duration_minutes: c.duration_minutes,
        status: c.status.clone(),
        created_at: c.created_at.clone(),
        updated_at: c.updated_at.clone(),
    }
}

/// The stored status that a status filter selects; none for "All" (and
/// any other choice).
pub open spec fn status_token(filter: Seq<char>) -> Option<Seq<char>> {
    if filter == "Upcoming"@ {
        Some("upcoming"@)
    } else if filter == "In Progress"@ {
        Some("in_progress"@)
    } else if filter == "Completed"@ {
        Some("completed"@)
    } else {
        None
    }
}

/// The stored status that a status filter selects.
pub fn status_filter_token(filter: &str) -> (r: Option<&'static str>)
    ensures
        match status_token(filter@) {
            Some(t) => r is Some && r->0@ == t,
            None => r is None,
        },
{
    if str_eq(filter, "Upcoming") {
        Some("upcoming")
    } else if str_eq(filter, "In Progress") {
        Some("in_progress")
    } else if str_eq(filter, "Completed") {
        Some("completed")
    } else {
        None
    }
}

/// The text of an optional field, empty when absent.
pub open spec fn text_or_empty(o: Option<String>) -> Seq<char> {
    match o {
        Some(s) => s@,
        None => Seq::empty(),
    }
}

/// A (lower-cased) search `q` finds the class: it is blank, or it occurs in
/// the lower-cased title, module code, date, time, status (underscores read
/// as spaces), venue or description.
pub open spec fn search_hits(c: Class, q: Seq<char>) -> bool {
    ||| is_blank(q)
    ||| contains_seq(lowercase(c.title@), q)
    ||| contains_seq(lowercase(c.module_code@), q)
    ||| contains_seq(lowercase(c.date@), q)
    ||| contains_seq(lowercase(c.time@), q)
    ||| contains_seq(lowercase(replace_all(c.status@, "_"@, " "@)), q)
    ||| contains_seq(lowercase(text_or_empty(c.venue)), q)
    ||| contains_seq(lowercase(text_or_empty(c.description)), q)
}

/// The search text as the page matches it: lower-cased (a blank text stays
/// as it is).
pub open spec fn search_key(search: Seq<char>) -> Seq<char> {
    if is_blank(search) {
        search
    } else {
        lowercase(search)
    }
}

/// A class is shown for a search text and a status filter.
pub open spec fn class_shown(c: Class, search: Seq<char>, filter: Seq<char>) -> bool {
    &&& search_hits(c, search_key(search))
    &&& match status_token(filter) {
        Some(t) => c.status@ == t,
        None => true,
    }
}

/// The classes shown for a search and a status filter, in their order.
pub open spec fn shown_classes(cs: Seq<Class>, search: Seq<char>, filter: Seq<char>) -> Seq<Class>
    decreases cs.len(),
{
    if cs.len() == 0 {
        cs
    } else if class_shown(cs.last(), search, filter) {
        shown_classes(cs.drop_last(), search, filter).push(cs.last())
    } else {
        shown_classes(cs.drop_last(), search, filter)
    }
}

/// Whether the lower-cased `field` holds `q`.
fn field_has(field: &str, q: &Vec<char>) -> (b: bool)
    ensures
        b == contains_seq(lowercase(field@), q@),
{
    let l = to_lowercase(field);
    let cs = chars_of(l.as_str());
    contains_chars(&cs, q)
}

/// Whether a (lower-cased) search finds the class.
fn hits(c: &Class, q: &Vec<char>, q_blank: bool) -> (b: bool)
    requires
        q_blank == is_blank(q@),
    ensures
        b == search_hits(*c, q@),
{
    if q_blank {
        return true;
    }
    let status_cs = chars_of(c.status.as_str());
    let under = chars_of("_");
    let space = chars_of(" ");
    proof {
        reveal_strlit("_");
        reveal_strlit("");
    }
    let spaced = replace_chars(&status_cs, &under, &space);
    let spaced_s = string_of(&spaced);
    let venue: &str = match &c.venue {
        Some(v) => v.as_str(),
        None => "",
    };
    let description: &str = match &c.description {
        Some(d) => d.as_str(),
        None => "",
    };
    assert(venue@ == text_or_empty(c.venue));
    assert(description@ == text_or_empty(c.description));
    assert(spaced_s@ == replace_all(c.status@, "_"@, " "@));
    field_has(c.title.as_str(), q) || field_has(c.module_code.as_str(), q) || field_has(c.date.as_str(), q)
        || field_has(c.time.as_str(), q) || field_has(spaced_s.as_str(), q) || field_has(venue, q)
        || field_has(description, q)
}

/// The classes of a module page that a search text and a status filter
/// show, in their order.
pub fn filter_classes(classes: &Vec<Class>, search: &str, filter: &str) -> (r: Vec<Class>)
    ensures
        r@ == shown_classes(classes@, search@, filter@),
{
    let ql = to_lowercase(search);
    let q = chars_of(ql.as_str());
    let q_blank = blank(ql.as_str());
    let token = status_filter_token(filter);
    let mut out: Vec<Class> = Vec::new();
    let mut i: usize = 0;
    while i < classes.len()
        invariant
            0 <= i <= classes.len(),
            q@ == search_key(search@),
            q_blank == is_blank(q@),
            match status_token(filter@) {
                Some(t) => token is Some && token->0@ == t,
                None => token is None,
            },
            out@ == shown_classes(classes@.subrange(0, i as int), search@, filter@),
        decreases classes.len() - i,
    {
        let c = &classes[i];
        proof {
            let p = classes@.subrange(0, i as int);
            assert(classes@.subrange(0, i + 1) =~= p.push(classes@[i as int]));
            assert(p.push(classes@[i as int]).drop_last() =~= p);
        }
        let status_ok = match token {
            Some(t) => str_eq(c.status.as_str(), t),
            None => true,
        };
        if status_ok && hits(c, &q, q_blank) {
            out.push(copy_class(c));
        }
        i = i + 1;
    }
    assert(classes@.subrange(0, classes.len() as int) =~= classes@);
    out
}

/// How many classes have the status `status`.
pub open spec fn status_count(cs: Seq<Class>, status: Seq<char>) -> nat
    decreases cs.len(),
{
    if cs.len() == 0 {
        0
    } else {
        status_count(cs.drop_last(), status) + if cs.last().status@ == status { 1nat } else { 0nat }
    }
}

/// How many classes have the status `status` (the module page's tiles).
pub fn count_with_status(classes: &Vec<Class>, status: &str) -> (n: usize)
    ensures
        n == status_count(classes@, status@),
{
    let mut n: usize = 0;
    let mut i: usize = 0;
    while i < classes.len()
        invariant
            0 <= i <= classes.len(),
            n == status_count(classes@.subrange(0, i as int), status@),
            n <= i,
        decreases classes.len() - i,
    {
        proof {
            let p = classes@.subrange(0, i as int);
            assert(classes@.subrange(0, i + 1) =~= p.push(classes@[i as int]));
            assert(p.push(classes@[i as int]).drop_last() =~= p);
        }
        if str_eq(classes[i].status.as_str(), status) {
            n = n + 1;
        }
        i = i + 1;
    }
    assert(classes@.subrange(0, classes.len() as int) =~= classes@);
    n
}

/// A class shown for a search and a filter is among the classes, and each
/// class that the search and the filter pick is shown.
proof fn lemma_shown_members(cs: Seq<Class>, search: Seq<char>, filter: Seq<char>)
    ensures
        forall|i: int| 0 <= i < cs.len() && class_shown(#[trigger] cs[i], search, filter) ==> shown_classes(
            cs,
            search,
            filter,
        ).contains(cs[i]),
        forall|k: int|
            0 <= k < shown_classes(cs, search, filter).len() ==> cs.contains(
                #[trigger] shown_classes(cs, search, filter)[k],
            ) && class_shown(shown_classes(cs, search, filter)[k], search, filter),
    decreases cs.len(),
{
    if cs.len() > 0 {
        let p = cs.drop_last();
        lemma_shown_members(p, search, filter);
        let sp = shown_classes(p, search, filter);
        let sc = shown_classes(cs, search, filter);
        assert forall|i: int| 0 <= i < cs.len() && class_shown(#[trigger] cs[i], search, filter) implies sc.contains(
            cs[i],
        ) by {
            if i < p.len() {
                assert(p[i] == cs[i]);
                let k = choose|k: int| 0 <= k < sp.len() && sp[k] == p[i];
                assert(sc[k] == sp[k]);
            } else {
                assert(sc[sc.len() - 1] == cs.last());
            }
        }
        assert forall|k: int| 0 <= k < sc.len() implies cs.contains(#[trigger] sc[k]) && class_shown(
            sc[k],
            search,
            filter,
        ) by {
            if k < sp.len() {
                assert(sc[k] == sp[k]);
                let j = choose|j: int| 0 <= j < p.len() && p[j] == sp[k];
                assert(cs[j] == p[j]);
            } else {
                assert(sc[k] == cs.last());
                assert(cs[cs.len() - 1] == cs.last());
            }
        }
    }
}

/// Under the "All" filter a search that is not blank shows a class exactly
/// when its lower-cased text is found in the class's lower-cased title,
/// module code, date, time, status (underscores read as spaces), venue or
/// description; every class shown is one of the classes.
pub proof fn lemma_search_shows_matches(cs: Seq<Class>, search: Seq<char>, i: int)
    requires
        0 <= i < cs.len(),
        !is_blank(search),
    ensures
        ({
            let c = cs[i];
            let q = lowercase(search);
            contains_seq(lowercase(c.title@), q) || contains_seq(lowercase(c.module_code@), q) || contains_seq(
                lowercase(c.date@),
                q,
            ) || contains_seq(lowercase(c.time@), q) || contains_seq(
                lowercase(replace_all(c.status@, "_"@, " "@)),
                q,
            ) || contains_seq(lowercase(text_or_empty(c.venue)), q) || contains_seq(
                lowercase(text_or_empty(c.description)),
                q,
            ) ==> shown_classes(cs, search, "All"@).contains(c)
        }),
        forall|k: int|
            0 <= k < shown_classes(cs, search, "All"@).len() ==> ({
                let c = #[trigger] shown_classes(cs, search, "All"@)[k];
                let q = lowercase(search);
                &&& cs.contains(c)
                &&& is_blank(q) || contains_seq(lowercase(c.title@), q) || contains_seq(
                    lowercase(c.module_code@),
                    q,
                ) || contains_seq(lowercase(c.date@), q) || contains_seq(lowercase(c.time@), q)
                    || contains_seq(lowercase(replace_all(c.status@, "_"@, " "@)), q) || contains_seq(
                    lowercase(text_or_empty(c.venue)),
                    q,
                ) || contains_seq(lowercase(text_or_empty(c.description)), q)
            }),
{
    reveal_strlit("All");
    reveal_strlit("Upcoming");
    reveal_strlit("In Progress");
    reveal_strlit("Completed");
    assert("All"@ != "Upcoming"@ && "All"@ != "In Progress"@ && "All"@ != "Completed"@) by {
        assert("All"@.len() != "Upcoming"@.len());
        assert("All"@.len() != "In Progress"@.len());
        assert("All"@.len() != "Completed"@.len());
    }
    assert(status_token("All"@) is None);
    lemma_shown_members(cs, search, "All"@);
}

/// With a blank search, the "Upcoming", "In Progress" and "Completed"
/// filters show exactly the classes whose stored status is "upcoming",
/// "in_progress" and "completed", and the "All" filter shows every class.
pub proof fn lemma_status_filters(cs: Seq<Class>, search: Seq<char>, i: int)
    requires
        0 <= i < cs.len(),
        is_blank(search),
    ensures
        shown_classes(cs, search, "Upcoming"@).contains(cs[i]) <==> cs[i].status@ == "upcoming"@,
        shown_classes(cs, search, "In Progress"@).contains(cs[i]) <==> cs[i].status@ == "in_progress"@,
        shown_classes(cs, search, "Completed"@).contains(cs[i]) <==> cs[i].status@ == "completed"@,
        shown_classes(cs, search, "All"@).contains(cs[i]),
{
    reveal_strlit("All");
    reveal_strlit("Upcoming");
    reveal_strlit("In Progress");
    reveal_strlit("Completed");
    assert("All"@ != "Upcoming"@ && "All"@ != "In Progress"@ && "All"@ != "Completed"@) by {
        assert("All"@.len() != "Upcoming"@.len());
        assert("All"@.len() != "In Progress"@.len());
        assert("All"@.len() != "Completed"@.len());
    }
    assert("In Progress"@ != "Upcoming"@) by {
        assert("In Progress"@.len() != "Upcoming"@.len());
    }
    assert("Completed"@ != "Upcoming"@) by {
        assert("Completed"@[0] != "Upcoming"@[0]);
    }
    assert("Completed"@ != "In Progress"@) by {
        assert("Completed"@.len() != "In Progress"@.len());
    }
    assert(search_key(search) == search);
    lemma_shown_members(cs, search, "Upcoming"@);
    lemma_shown_members(cs, search, "In Progress"@);
    lemma_shown_members(cs, search, "Completed"@);
    lemma_shown_members(cs, search, "All"@);
    assert forall|f: Seq<char>|
        f == "Upcoming"@ || f == "In Progress"@ || f == "Completed"@ implies (shown_classes(cs, search, f).contains(
        cs[i],
    ) ==> class_shown(cs[i], search, f)) by {
        if shown_classes(cs, search, f).contains(cs[i]) {
            let k = choose|k: int|
                0 <= k < shown_classes(cs, search, f).len() && shown_classes(cs, search, f)[k] == cs[i];
            assert(class_shown(shown_classes(cs, search, f)[k], search, f));
        }
    }
}

/// With a blank search and the "All" filter every class is shown, in its
/// order.
pub proof fn lemma_blank_search_shows_all(cs: Seq<Class>, search: Seq<char>, filter: Seq<char>)
    requires
        is_blank(search),
        status_token(filter) is None,
    ensures
        shown_classes(cs, search, filter) == cs,
    decreases cs.len(),
{
    if cs.len() > 0 {
        lemma_blank_search_shows_all(cs.drop_last(), search, filter);
        assert(cs.drop_last().push(cs.last()) =~= cs);
    }
}

/// With a blank search, a status filter shows as many classes as the
/// module page's tile counts for that status.
pub proof fn lemma_status_filter_matches_count(cs: Seq<Class>, search: Seq<char>, filter: Seq<char>)
    requires
        is_blank(search),
        status_token(filter) is Some,
    ensures
        shown_classes(cs, search, filter).len() == status_count(cs, status_token(filter)->0),
    decreases cs.len(),
{
    if cs.len() > 0 {
        lemma_status_filter_matches_count(cs.drop_last(), search, filter);
    }
}

/// The classes held on `date`, in their order.
pub open spec fn classes_on(cs: Seq<Class>, date: Seq<char>) -> Seq<Class>
    decreases cs.len(),
{
    if cs.len() == 0 {
        cs
    } else if cs.last().date@ == date {
        classes_on(cs.drop_last(), date).push(cs.last())
    } else {
        classes_on(cs.drop_last(), date)
    }
}

/// The classes held on `date` (the timetable's and calendar's day view).
pub fn classes_on_date(classes: &Vec<Class>, date: &str) -> (r: Vec<Class>)
    ensures
        r@ == classes_on(classes@, date@),
{
    let mut out: Vec<Class> = Vec::new();
    let mut i: usize = 0;
    while i < classes.len()
        invariant
            0 <= i <= classes.len(),
            out@ == classes_on(classes@.subrange(0, i as int), date@),
        decreases classes.len() - i,
    {
        proof {
            let p = classes@.subrange(0, i as int);
            assert(classes@.subrange(0, i + 1) =~= p.push(classes@[i as int]));
            assert(p.push(classes@[i as int]).drop_last() =~= p);
        }
        if str_eq(classes[i].date.as_str(), date) {
            out.push(copy_class(&classes[i]));
        }
        i = i + 1;
    }
    assert(classes@.subrange(0, classes.len() as int) =~= classes@);
    out
}

/// The start times of classes.
pub open spec fn times_of(cs: Seq<Class>) -> Seq<Seq<char>> {
    Seq::new(cs.len(), |i: int| cs[i].time@)
}

/// `order` lists the positions `0..times.len()` once each so that the times
/// ascend, and equal times keep their order (a stable sort).
pub open spec fn stable_order(times: Seq<Seq<char>>, order: Seq<int>) -> bool {
    &&& order.len() == times.len()
    &&& forall|i: int| 0 <= i < order.len() ==> 0 <= #[trigger] order[i] < times.len()
    &&& forall|i: int, j: int| 0 <= i < j < order.len() ==> order[i] != order[j]
    &&& forall|i: int, j: int|
        0 <= i < j < order.len() ==> lex_le(#[trigger] times[order[i]], #[trigger] times[order[j]])
    &&& forall|i: int, j: int|
        0 <= i < j < order.len() && times[order[i]] == times[order[j]] ==> order[i] < order[j]
}

/// The positions in `o` as integers.
pub open spec fn as_ints(o: Seq<usize>) -> Seq<int> {
    Seq::new(o.len(), |i: int| o[i] as int)
}

/// Inserting position `x` (the largest so far) after every time that is
/// not later than its own keeps the order stable.
proof fn lemma_insert_stable(t: Seq<Seq<char>>, o: Seq<int>, p: int, x: int)
    requires
        x == o.len(),
        x < t.len(),
        stable_order(t.subrange(0, x), o),
        0 <= p <= o.len(),
        p > 0 ==> lex_le(t[o[p - 1]], t[x]),
        forall|q: int| p <= q < o.len() ==> !lex_le(#[trigger] t[o[q]], t[x]),
    ensures
        stable_order(t.subrange(0, x + 1), o.insert(p, x)),
{
    let n = o.insert(p, x);
    let t0 = t.subrange(0, x);
    let t1 = t.subrange(0, x + 1);
    assert forall|i: int| 0 <= i < o.len() implies 0 <= #[trigger] o[i] < x && t0[o[i]] == t[o[i]] by {}
    assert forall|i: int| 0 <= i < n.len() implies 0 <= #[trigger] n[i] < t1.len() by {
        if i < p {
            assert(n[i] == o[i]);
        } else if i > p {
            assert(n[i] == o[i - 1]);
        }
    }
    assert forall|i: int, j: int| 0 <= i < j < n.len() implies n[i] != n[j] by {
        if i < p && j < p {
            assert(n[i] == o[i] && n[j] == o[j]);
        } else if i > p && j > p {
            assert(n[i] == o[i - 1] && n[j] == o[j - 1]);
        } else if i < p && j > p {
            assert(n[i] == o[i] && n[j] == o[j - 1]);
        } else if i == p {
            if j > p {
                assert(n[j] == o[j - 1]);
            }
        } else {
            assert(j == p);
            assert(n[i] == o[i]);
        }
    }
    assert forall|i: int, j: int| 0 <= i < j < n.len() implies lex_le(
        #[trigger] t1[n[i]],
        #[trigger] t1[n[j]],
    ) && (t1[n[i]] == t1[n[j]] ==> n[i] < n[j]) by {
        if i < p && j < p {
            assert(n[i] == o[i] && n[j] == o[j]);
            assert(lex_le(t0[o[i]], t0[o[j]]));
        } else if i > p && j > p {
            assert(n[i] == o[i - 1] && n[j] == o[j - 1]);
            assert(lex_le(t0[o[i - 1]], t0[o[j - 1]]));
        } else if i < p && j > p {
            assert(n[i] == o[i] && n[j] == o[j - 1]);
            assert(lex_le(t0[o[i]], t0[o[j - 1]]));
        } else if i < p && j == p {
            assert(n[i] == o[i] && n[j] == x);
            if i < p - 1 {
                assert(lex_le(t0[o[i]], t0[o[p - 1]]));
                crate::text::lemma_lex_trans(t[o[i]], t[o[p - 1]], t[x]);
            }
        } else {
            assert(i == p && j > p);
            assert(n[i] == x && n[j] == o[j - 1]);
            assert(!lex_le(t[o[j - 1]], t[x]));
            crate::text::lemma_lex_total(t[o[j - 1]], t[x]);
            if t[x] == t[o[j - 1]] {
                crate::text::lemma_lex_refl(t[x]);
            }
        }
    }
}

/// The positions of `times` in stably ascending order.
pub fn stable_time_order(times: &Vec<String>) -> (r: Vec<usize>)
    ensures
        stable_order(crate::text::views(times@), as_ints(r@)),
{
    let ghost t = crate::text::views(times@);
    let mut order: Vec<usize> = Vec::new();
    let mut x: usize = 0;
    assert(as_ints(order@) =~= Seq::<int>::empty());
    while x < times.len()
        invariant
            0 <= x <= times.len(),
            t == crate::text::views(times@),
            order@.len() == x,
            stable_order(t.subrange(0, x as int), as_ints(order@)),
        decreases times.len() - x,
    {
        let ghost o = as_ints(order@);
        assert forall|q: int| 0 <= q < order@.len() implies #[trigger] order@[q] < x by {
            assert(o[q] == order@[q] as int);
        }
        let mut p: usize = order.len();
        while p > 0 && !str_le(times[order[p - 1]].as_str(), times[x].as_str())
            invariant
                0 <= p <= order@.len(),
                order@.len() == x,
                x < times.len(),
                o == as_ints(order@),
                forall|q: int| 0 <= q < order@.len() ==> #[trigger] order@[q] < x,
                t == crate::text::views(times@),
                stable_order(t.subrange(0, x as int), o),
                forall|q: int| p <= q < o.len() ==> !lex_le(#[trigger] t[o[q]], t[x as int]),
            decreases p,
        {
            proof {
                assert(o[p - 1] < x);
                assert(t[o[p - 1]] == times@[order@[p - 1] as int]@);
            }
            p = p - 1;
        }
        proof {
            if p > 0 {
                assert(o[p - 1] < x);
                assert(t[o[p - 1]] == times@[order@[p - 1] as int]@);
            }
            lemma_insert_stable(t, o, p as int, x as int);
        }
        order.insert(p, x);
        assert(as_ints(order@) =~= o.insert(p as int, x as int));
        x = x + 1;
    }
    assert(t.subrange(0, times.len() as int) =~= t);
    order
}

/// The classes of a day ordered by start time, classes starting at the
/// same time keeping their order (the timetable's list).
pub fn sort_by_time(classes: &Vec<Class>) -> (r: Vec<Class>)
    ensures
        exists|order: Seq<int>|
            stable_order(times_of(classes@), order) && r@.len() == order.len() && forall|k: int|
                0 <= k < order.len() ==> #[trigger] r@[k] == classes@[order[k]],
{
    let mut times: Vec<String> = Vec::new();
    let mut i: usize = 0;
    while i < classes.len()
        invariant
            0 <= i <= classes.len(),
            times@.len() == i,
            forall|k: int| 0 <= k < i ==> (#[trigger] times@[k])@ == classes@[k].time@,
        decreases classes.len() - i,
    {
        times.push(classes[i].time.clone());
        i = i + 1;
    }
    assert(crate::text::views(times@) =~= times_of(classes@));
    let order = stable_time_order(&times);
    let ghost o = as_ints(order@);
    let mut out: Vec<Class> = Vec::new();
    let mut k: usize = 0;
    while k < order.len()
        invariant
            0 <= k <= order.len(),
            o == as_ints(order@),
            stable_order(times_of(classes@), o),
            out@.len() == k,
            forall|j: int| 0 <= j < k ==> #[trigger] out@[j] == classes@[o[j]],
        decreases order.len() - k,
    {
        assert(o[k as int] < classes@.len());
        out.push(copy_class(&classes[order[k]]));
        k = k + 1;
    }
    out
}

/// Minutes of teaching: each class's duration, negative durations counting
/// as zero.
pub open spec fn teaching_minutes(cs: Seq<Class>) -> int
    decreases cs.len(),
{
    if cs.len() == 0 {
        0
    } else {
        teaching_minutes(cs.drop_last()) + if cs.last().duration_minutes < 0 {
            0
        } else {
            cs.last().duration_minutes as int
        }
    }
}

/// Minutes of teaching of a day's classes.
pub fn total_minutes(classes: &Vec<Class>) -> (m: i32)
    requires
        teaching_minutes(classes@) <= i32::MAX,
    ensures
        m == teaching_minutes(classes@),
{
    let mut total: i64 = 0;
    let mut i: usize = 0;
    while i < classes.len()
        invariant
            0 <= i <= classes.len(),
            total == teaching_minutes(classes@.subrange(0, i as int)),
            teaching_minutes(classes@) <= i32::MAX,
        decreases classes.len() - i,
    {
        proof {
            lemma_teaching_prefix(classes@, i as int);
            lemma_teaching_prefix(classes@, i + 1);
            let p = classes@.subrange(0, i as int);
            assert(classes@.subrange(0, i + 1) =~= p.push(classes@[i as int]));
            assert(p.push(classes@[i as int]).drop_last() =~= p);
        }
        let d = classes[i].duration_minutes;
        if d > 0 {
            total = total + d as i64;
        }
        i = i + 1;
    }
    assert(classes@.subrange(0, classes.len() as int) =~= classes@);
    proof {
        lemma_teaching_prefix(classes@, classes.len() as int);
    }
    total as i32
}

/// Teaching minutes add up: those of no class are zero, those of one class
/// are its duration (zero for a negative one), and those of two lists put
/// together are the sum of each list's.
pub proof fn lemma_teaching_minutes_add(a: Seq<Class>, b: Seq<Class>, c: Class)
    ensures
        teaching_minutes(Seq::<Class>::empty()) == 0,
        c.duration_minutes >= 0 ==> teaching_minutes(seq![c]) == c.duration_minutes as int,
        c.duration_minutes < 0 ==> teaching_minutes(seq![c]) == 0,
        teaching_minutes(a + b) == teaching_minutes(a) + teaching_minutes(b),
    decreases b.len(),
{
    assert(seq![c].drop_last() =~= Seq::<Class>::empty());
    if b.len() == 0 {
        assert(a + b =~= a);
    } else {
        lemma_teaching_minutes_add(a, b.drop_last(), c);
        assert((a + b).drop_last() =~= a + b.drop_last());
        assert((a + b).last() == b.last());
    }
}

/// The minutes of a leading part of the classes are no fewer than none and
/// no more than those of all of them.
proof fn lemma_teaching_prefix(cs: Seq<Class>, i: int)
    requires
        0 <= i <= cs.len(),
    ensures
        0 <= teaching_minutes(cs.subrange(0, i)) <= teaching_minutes(cs),
    decreases cs.len(),
{
    if cs.len() == 0 {
        assert(cs.subrange(0, i) =~= cs);
    } else if i < cs.len() {
        lemma_teaching_prefix(cs.drop_last(), i);
        assert(cs.drop_last().subrange(0, i) =~= cs.subrange(0, i));
    } else {
        lemma_teaching_prefix(cs.drop_last(), i - 1);
        assert(cs.drop_last().subrange(0, i - 1) =~= cs.drop_last());
        assert(cs.subrange(0, i) =~= cs);
    }
}

/// How teaching time reads: nothing, whole hours, or a fraction of hours
/// (shown with one decimal).
#[derive(PartialEq, Eq, Debug, Clone, Copy)]
pub enum HoursDisplay {
    Zero,
    WholeHours(i32),
    FractionOfMinutes(i32),
}

/// How `minutes` of teaching read.
pub fn hours_display(minutes: i32) -> (r: HoursDisplay)
    ensures
        minutes <= 0 ==> r == HoursDisplay::Zero,
        minutes > 0 && minutes % 60 == 0 ==> r == HoursDisplay::WholeHours((minutes / 60) as i32),
        minutes > 0 && minutes % 60 != 0 ==> r == HoursDisplay::FractionOfMinutes(minutes),
{
    if minutes <= 0 {
        HoursDisplay::Zero
    } else if minutes % 60 == 0 {
        HoursDisplay::WholeHours(minutes / 60)
    } else {
        HoursDisplay::FractionOfMinutes(minutes)
    }
}

/// The badge style of a class status.
pub open spec fn badge_class(status: Seq<char>) -> Seq<char> {
    if status == "completed"@ {
        "status-badge completed"@
    } else if status == "in_progress"@ {
        "status-badge in-progress"@
    } else {
        "status-badge upcoming"@
    }
}

/// The badge style of a class status.
pub fn status_badge(status: &str) -> (r: &'static str)
    ensures
        r@ == badge_class(status@),
{
    if str_eq(status, "completed") {
        "status-badge completed"
    } else if str_eq(status, "in_progress") {
        "status-badge in-progress"
    } else {
        "status-badge upcoming"
    }
}

/// The label of a class status.
pub open spec fn status_label(status: Seq<char>) -> Seq<char> {
    if status == "completed"@ {
        "Completed"@
    } else if status == "in_progress"@ {
        "In Progress"@
    } else if status == "upcoming"@ {
        "Upcoming"@
    } else {
        "Unknown"@
    }
}

/// The label of a class status.
pub fn status_text(status: &str) -> (r: &'static str)
    ensures
        r@ == status_label(status@),
{
    if str_eq(status, "completed") {
        "Completed"
    } else if str_eq(status, "in_progress") {
        "In Progress"
    } else if str_eq(status, "upcoming") {
        "Upcoming"
    } else {
        "Unknown"
    }
}

/// A button of a class row on the module page.
#[derive(PartialEq, Eq, Debug, Clone, Copy)]
pub enum ClassRowAction {
    Start,
    End,
}

/// The status that a row's button asks for: Start, shown while the class
/// is upcoming, asks for "in_progress"; End, shown while it is in
/// progress, asks for "completed"; a button not shown asks for nothing.
pub open spec fn row_request(status: Seq<char>, action: ClassRowAction) -> Option<Seq<char>> {
    match action {
        ClassRowAction::Start => if status == "upcoming"@ {
            Some("in_progress"@)
        } else {
            None
        },
        ClassRowAction::End => if status == "in_progress"@ {
            Some("completed"@)
        } else {
            None
        },
    }
}

/// Whether a class row shows a button in `status`.
pub fn class_row_shows(status: &str, action: ClassRowAction) -> (b: bool)
    ensures
        b == (row_request(status@, action) is Some),
{
    match action {
        ClassRowAction::Start => str_eq(status, "upcoming"),
        ClassRowAction::End => str_eq(status, "in_progress"),
    }
}

/// The status that a row's button asks for.
pub fn class_row_request(status: &str, action: ClassRowAction) -> (r: Option<&'static str>)
    ensures
        match row_request(status@, action) {
            Some(t) => r is Some && r->0@ == t,
            None => r is None,
        },
{
    match action {
        ClassRowAction::Start => if str_eq(status, "upcoming") {
            Some("in_progress")
        } else {
            None
        },
        ClassRowAction::End => if str_eq(status, "in_progress") {
            Some("completed")
        } else {
            None
        },
    }
}

/// A row's status once a status change was answered: the status of the
/// class that a successful answer carries; otherwise (a refusal, an answer
/// without a class, or a failed request) the status it had.
pub fn class_row_status_after(current: String, answer: Result<ClassResponse, String>) -> (r: String)
    ensures
        match answer {
            Ok(resp) => if resp.success && resp.class is Some {
                r == resp.class->0.status
            } else {
                r == current
            },
            Err(_) => r == current,
        },
{
    match answer {
        Ok(resp) => if resp.success {
            match resp.class {
                Some(c) => c.status,
                None => current,
            }
        } else {
            current
        },
        Err(_) => current,
    }
}

} // verus!
