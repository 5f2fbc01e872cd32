//! File names: their parts, and names that do not collide with what is
//! already there.

use vstd::prelude::*;
use vstd::relations::injective_on;
use vstd::set_lib::{lemma_int_range, lemma_len_subset, lemma_map_size, set_int_range};
use crate::text::{fold_char, folded, string_push};

verus! {

/// Whether `c` separates the components of a path.
pub open spec fn is_separator(c: char) -> bool {
    c == '/' || c == '\\'
}

/// Where the last component of `path` ends: after its last character
/// that is not a separator. Separators at the end of a path belong to no
/// component.
pub open spec fn name_end(path: Seq<char>) -> int
    decreases path.len(),
{
    if path.len() == 0 {
        0
    } else if is_separator(path.last()) {
        name_end(path.drop_last())
    } else {
        path.len() as int
    }
}

/// Where the run of characters without a separator starts that `s` ends
/// in.
pub open spec fn last_run_start(s: Seq<char>) -> int
    decreases s.len(),
{
    if s.len() == 0 {
        0
    } else if is_separator(s.last()) {
        s.len() as int
    } else {
        last_run_start(s.drop_last())
    }
}

/// Where the last component of `path` starts: after the last separator
/// that has a component behind it, or at the start where there is none.
pub open spec fn name_start(path: Seq<char>) -> int {
    last_run_start(path.take(name_end(path)))
}

/// The last component of `path`, without the separators that may follow
/// it. It is empty only where `path` holds nothing but separators.
pub open spec fn file_name(path: Seq<char>) -> Seq<char> {
    path.subrange(name_start(path), name_end(path))
}

/// What precedes the last component of `path`, separator included.
pub open spec fn parent_part(path: Seq<char>) -> Seq<char> {
    path.take(name_start(path))
}

/// Where the last dot of `name` stands, or -1 where it has none.
pub open spec fn dot_index(name: Seq<char>) -> int
    decreases name.len(),
{
    if name.len() == 0 {
        -1
    } else if name.last() == '.' {
        name.len() - 1
    } else {
        dot_index(name.drop_last())
    }
}

/// The name without its extension. A dot at the very start does not begin
/// an extension.
pub open spec fn stem(name: Seq<char>) -> Seq<char> {
    if dot_index(name) <= 0 {
        name
    } else {
        name.take(dot_index(name))
    }
}

/// The extension of `name` with its dot, or nothing where it has none.
pub open spec fn dotted_extension(name: Seq<char>) -> Seq<char> {
    if dot_index(name) <= 0 {
        Seq::empty()
    } else {
        name.skip(dot_index(name))
    }
}

/// The extension of `name` without its dot, where it has one.
pub open spec fn extension(name: Seq<char>) -> Option<Seq<char>> {
    if dot_index(name) <= 0 {
        None
    } else {
        Some(name.skip(dot_index(name) + 1))
    }
}

/// The bounds of `name_end`, and what stands before it.
pub proof fn lemma_name_end_bounds(path: Seq<char>)
    ensures
        0 <= name_end(path) <= path.len(),
        name_end(path) > 0 ==> !is_separator(path[name_end(path) - 1]),
        forall|i: int| name_end(path) <= i < path.len() ==> is_separator(#[trigger] path[i]),
    decreases path.len(),
{
    if path.len() > 0 && is_separator(path.last()) {
        let head = path.drop_last();
        lemma_name_end_bounds(head);
        assert forall|i: int| name_end(path) <= i < path.len() implies is_separator(
            #[trigger] path[i],
        ) by {
            if i < head.len() {
                assert(head[i] == path[i]);
            }
        }
    }
}

/// The bounds of `last_run_start`, and that the run holds no separator.
pub proof fn lemma_last_run(s: Seq<char>)
    ensures
        0 <= last_run_start(s) <= s.len(),
        forall|i: int| last_run_start(s) <= i < s.len() ==> !is_separator(#[trigger] s[i]),
        last_run_start(s) > 0 ==> is_separator(s[last_run_start(s) - 1]),
    decreases s.len(),
{
    if s.len() > 0 && !is_separator(s.last()) {
        let head = s.drop_last();
        lemma_last_run(head);
        assert forall|i: int| last_run_start(s) <= i < s.len() implies !is_separator(
            #[trigger] s[i],
        ) by {
            if i < head.len() {
                assert(head[i] == s[i]);
            }
        }
    }
}

/// The bounds of `name_start`: the last component lies within the path
/// and holds no separator, and a path that does not end in a separator
/// ends with it.
pub proof fn lemma_name_start_bounds(path: Seq<char>)
    ensures
        0 <= name_start(path) <= name_end(path) <= path.len(),
        forall|i: int| 0 <= i < file_name(path).len() ==> !is_separator(#[trigger] file_name(path)[i]),
        path.len() > 0 && !is_separator(path.last()) ==> name_end(path) == path.len(),
{
    lemma_name_end_bounds(path);
    let head = path.take(name_end(path));
    lemma_last_run(head);
    assert forall|i: int| 0 <= i < file_name(path).len() implies !is_separator(
        #[trigger] file_name(path)[i],
    ) by {
        assert(file_name(path)[i] == head[name_start(path) + i]);
    }
}

/// The bounds of `dot_index`.
pub proof fn lemma_dot_index_bounds(name: Seq<char>)
    ensures
        -1 <= dot_index(name) < name.len(),
    decreases name.len(),
{
    if name.len() > 0 && name.last() != '.' {
        lemma_dot_index_bounds(name.drop_last());
    }
}

/// A name is its stem followed by its dotted extension.
pub proof fn lemma_stem_and_extension(name: Seq<char>)
    ensures
        stem(name) + dotted_extension(name) == name,
{
    lemma_dot_index_bounds(name);
    assert(stem(name) + dotted_extension(name) =~= name);
}

/// The character for a decimal digit.
pub open spec fn digit_char(d: int) -> char {
    if d == 0 {
        '0'
    } else if d == 1 {
        '1'
    } else if d == 2 {
        '2'
    } else if d == 3 {
        '3'
    } else if d == 4 {
        '4'
    } else if d == 5 {
        '5'
    } else if d == 6 {
        '6'
    } else if d == 7 {
        '7'
    } else if d == 8 {
        '8'
    } else {
        '9'
    }
}

/// The number a decimal digit stands for.
pub open spec fn digit_value(c: char) -> int {
    c as int - '0' as int
}

/// `n` written in decimal, without leading zeros.
pub open spec fn decimal(n: nat) -> Seq<char>
    decreases n,
{
    if n < 10 {
        seq![digit_char(n as int)]
    } else {
        decimal(n / 10).push(digit_char((n % 10) as int))
    }
}

/// The number that a string of decimal digits spells.
pub open spec fn decimal_value(s: Seq<char>) -> int
    decreases s.len(),
{
    if s.len() == 0 {
        0
    } else {
        decimal_value(s.drop_last()) * 10 + digit_value(s.last())
    }
}

/// Reading a number written in decimal gives the number.
pub proof fn lemma_decimal_value(n: nat)
    ensures
        decimal_value(decimal(n)) == n,
        decimal(n).len() >= 1,
    decreases n,
{
    if n < 10 {
        reveal_with_fuel(decimal_value, 2);
        assert(decimal(n).drop_last() =~= Seq::<char>::empty());
    } else {
        lemma_decimal_value(n / 10);
        assert(decimal(n).drop_last() =~= decimal(n / 10));
    }
}

/// The name with ` (k)` put before its extension.
pub open spec fn numbered_name(name: Seq<char>, k: nat) -> Seq<char> {
    stem(name) + seq![' ', '('] + decimal(k) + seq![')'] + dotted_extension(name)
}

/// Different numbers give different names.
pub proof fn lemma_numbered_names_differ(name: Seq<char>, a: nat, b: nat)
    requires
        numbered_name(name, a) == numbered_name(name, b),
    ensures
        a == b,
{
    let p = stem(name).len() as int + 2;
    let na = numbered_name(name, a);
    let nb = numbered_name(name, b);
    lemma_decimal_value(a);
    lemma_decimal_value(b);
    assert(na.len() == p + decimal(a).len() + 1 + dotted_extension(name).len());
    assert(nb.len() == p + decimal(b).len() + 1 + dotted_extension(name).len());
    assert(na.subrange(p, p + decimal(a).len() as int) =~= decimal(a));
    assert(nb.subrange(p, p + decimal(b).len() as int) =~= decimal(b));
}

/// Names that are already there.
pub open spec fn names_of(siblings: Seq<String>) -> Seq<Seq<char>> {
    siblings.map_values(|s: String| s@)
}

/// If the first `count` numbered names are all taken, there are at least
/// `count` names there.
pub proof fn lemma_numbered_names_taken(name: Seq<char>, taken: Seq<Seq<char>>, count: nat)
    requires
        forall|j: int| 1 <= j <= count ==> taken.contains(#[trigger] numbered_name(name, j as nat)),
    ensures
        count <= taken.len(),
{
    let numbers = set_int_range(1, count as int + 1);
    let f = |j: int| numbered_name(name, j as nat);
    lemma_int_range(1, count as int + 1);
    assert(injective_on(f, numbers)) by {
        assert forall|x1: int, x2: int|
            numbers.contains(x1) && numbers.contains(x2) && #[trigger] f(x1) == #[trigger] f(
                x2,
            ) implies x1 == x2 by {
            lemma_numbered_names_differ(name, x1 as nat, x2 as nat);
        }
    }
    let image = numbers.map(f);
    lemma_map_size(numbers, image, f);
    vstd::seq_lib::seq_to_set_is_finite(taken);
    assert(image.subset_of(taken.to_set())) by {
        assert forall|n: Seq<char>| image.contains(n) implies taken.to_set().contains(n) by {
            let j = choose|j: int| numbers.contains(j) && f(j) == n;
            assert(taken.contains(numbered_name(name, j as nat)));
        }
    }
    lemma_len_subset(image, taken.to_set());
    taken.lemma_cardinality_of_set();
}

/// That `name` is the name to use in place of `wanted`: `wanted` itself
/// where it is free, else the first numbered name that is.
pub open spec fn is_unique_name_for(name: Seq<char>, wanted: Seq<char>, taken: Seq<Seq<char>>) -> bool {
    &&& !taken.contains(name)
    &&& if !taken.contains(wanted) {
        name == wanted
    } else {
        exists|k: nat|
            {
                &&& k >= 1
                &&& name == #[trigger] numbered_name(wanted, k)
                &&& forall|j: int| 1 <= j < k ==> taken.contains(#[trigger] numbered_name(wanted, j as nat))
            }
    }
}

/// The characters of a string.
pub fn to_chars(s: &str) -> (out: Vec<char>)
    ensures
        out@ == s@,
{
    broadcast use vstd::string::axiom_spec_iter;

    let mut out: Vec<char> = Vec::new();
    for c in it: s.chars()
        invariant
            it.seq() == s@,
            out@ == s@.take(it.index() as int),
    {
        out.push(c);
        assert(out@ =~= s@.take(it.index() + 1));
    }
    assert(out@ =~= s@);
    out
}

/// Whether `word` holds exactly the characters of `literal`.
pub fn is_word(word: &Vec<char>, literal: &str) -> (same: bool)
    ensures
        same == (word@ == literal@),
{
    let other = to_chars(literal);
    if word.len() != other.len() {
        return false;
    }
    let mut i: usize = 0;
    while i < word.len()
        invariant
            i <= word@.len(),
            word@.len() == other@.len(),
            other@ == literal@,
            forall|j: int| 0 <= j < i ==> word@[j] == other@[j],
        decreases word@.len() - i,
    {
        if word[i] != other[i] {
            assert(word@[i as int] != other@[i as int]);
            return false;
        }
        i += 1;
    }
    assert(word@ =~= other@);
    true
}

/// Appends the characters `chars[from..to]` to `out`.
pub(crate) fn push_chars(out: &mut String, chars: &Vec<char>, from: usize, to: usize)
    requires
        from <= to <= chars@.len(),
    ensures
        final(out)@ == old(out)@ + chars@.subrange(from as int, to as int),
{
    let mut i = from;
    assert(out@ =~= old(out)@ + chars@.subrange(from as int, i as int));
    while i < to
        invariant
            from <= i <= to <= chars@.len(),
            out@ == old(out)@ + chars@.subrange(from as int, i as int),
        decreases to - i,
    {
        string_push(out, chars[i]);
        assert(out@ =~= old(out)@ + chars@.subrange(from as int, i + 1));
        i += 1;
    }
}

/// Finds where the last component of a path ends.
pub fn find_name_end(path: &Vec<char>) -> (at: usize)
    ensures
        at == name_end(path@),
        at <= path@.len(),
{
    let mut i = path.len();
    assert(path@.take(i as int) =~= path@);
    while i > 0
        invariant
            i <= path@.len(),
            name_end(path@) == name_end(path@.take(i as int)),
        decreases i,
    {
        let c = path[i - 1];
        assert(path@.take(i as int).last() == c);
        if !(c == '/' || c == '\\') {
            return i;
        }
        assert(path@.take(i as int).drop_last() =~= path@.take(i - 1));
        i -= 1;
    }
    0
}

/// Finds where the last component of a path starts.
pub fn find_name_start(path: &Vec<char>) -> (at: usize)
    ensures
        at == name_start(path@),
        at <= name_end(path@) <= path@.len(),
{
    let end = find_name_end(path);
    let ghost head = path@.take(end as int);
    let mut i = end;
    assert(head.take(i as int) =~= head);
    while i > 0
        invariant
            i <= end <= path@.len(),
            end == name_end(path@),
            head == path@.take(end as int),
            last_run_start(head) == last_run_start(head.take(i as int)),
        decreases i,
    {
        let c = path[i - 1];
        assert(head.take(i as int).last() == c);
        if c == '/' || c == '\\' {
            assert(head.take(i as int).len() == i);
            assert(is_separator(head.take(i as int).last()));
            return i;
        }
        assert(head.take(i as int).drop_last() =~= head.take(i - 1));
        i -= 1;
    }
    0
}

/// The characters of the last component of a path.
pub fn name_chars(path: &Vec<char>) -> (name: Vec<char>)
    ensures
        name@ == file_name(path@),
{
    let start = find_name_start(path);
    let end = find_name_end(path);
    let mut name: Vec<char> = Vec::new();
    let mut i = start;
    assert(name@ =~= path@.subrange(start as int, i as int));
    while i < end
        invariant
            start <= i <= end <= path@.len(),
            name@ == path@.subrange(start as int, i as int),
        decreases end - i,
    {
        name.push(path[i]);
        assert(name@ =~= path@.subrange(start as int, i + 1));
        i += 1;
    }
    name
}

/// The extension of a path's last component as it matters when it is
/// compared with lowercase words, or nothing where the component has no
/// extension.
pub open spec fn folded_extension(path: Seq<char>) -> Option<Seq<char>> {
    match extension(file_name(path)) {
        Some(ext) => Some(ext.map_values(|c: char| folded(c))),
        None => None,
    }
}

/// Takes the extension of a path's last component and folds it.
pub fn fold_extension(path: &str) -> (out: Option<Vec<char>>)
    ensures
        folded_extension(path@) == (match out {
            Some(e) => Some(e@),
            None => None,
        }),
{
    let chars = to_chars(path);
    let name = name_chars(&chars);
    assert(name@.skip(0) =~= name@);
    let dot = match find_dot(&name, 0) {
        Some(i) => i,
        None => { return None; },
    };
    if dot == 0 {
        return None;
    }
    let ghost ext = name@.skip(dot + 1);
    let mut lowered: Vec<char> = Vec::new();
    let total = name.len();
    let mut i = dot + 1;
    assert(lowered@ =~= ext.take(0).map_values(|c: char| folded(c)));
    while i < total
        invariant
            total == name@.len(),
            dot + 1 <= i <= name@.len(),
            ext == name@.skip(dot + 1),
            lowered@ == ext.take(i - dot - 1).map_values(|c: char| folded(c)),
        decreases name@.len() - i,
    {
        lowered.push(fold_char(name[i]));
        proof {
            assert(ext[i - dot - 1] == name@[i as int]);
            assert(lowered@ =~= ext.take(i - dot).map_values(|c: char| folded(c)));
        }
        i += 1;
    }
    proof {
        assert(ext.take(i - dot - 1) =~= ext);
    }
    Some(lowered)
}

/// Finds the last dot among `chars[from..]`, as a place in `chars`.
pub(crate) fn find_dot(chars: &Vec<char>, from: usize) -> (at: Option<usize>)
    requires
        from <= chars@.len(),
    ensures
        match at {
            Some(i) => from <= i < chars@.len() && dot_index(chars@.skip(from as int)) == i - from,
            None => dot_index(chars@.skip(from as int)) == -1,
        },
{
    let ghost name = chars@.skip(from as int);
    let mut i = chars.len();
    assert(name.take(i - from) =~= name);
    while i > from
        invariant
            from <= i <= chars@.len(),
            name == chars@.skip(from as int),
            dot_index(name) == dot_index(name.take(i - from)),
        decreases i,
    {
        let c = chars[i - 1];
        assert(name.take(i - from).last() == c);
        if c == '.' {
            return Some(i - 1);
        }
        assert(name.take(i - from).drop_last() =~= name.take(i - 1 - from));
        i -= 1;
    }
    None
}

/// The character for the decimal digit `d`.
fn digit(d: u128) -> (c: char)
    requires
        d < 10,
    ensures
        c == digit_char(d as int),
{
    if d == 0 {
        '0'
    } else if d == 1 {
        '1'
    } else if d == 2 {
        '2'
    } else if d == 3 {
        '3'
    } else if d == 4 {
        '4'
    } else if d == 5 {
        '5'
    } else if d == 6 {
        '6'
    } else if d == 7 {
        '7'
    } else if d == 8 {
        '8'
    } else {
        '9'
    }
}

/// Appends `n` in decimal.
pub fn push_decimal(out: &mut String, n: u128)
    ensures
        final(out)@ == old(out)@ + decimal(n as nat),
    decreases n,
{
    if n < 10 {
        string_push(out, digit(n));
        assert(out@ =~= old(out)@ + decimal(n as nat));
    } else {
        push_decimal(out, n / 10);
        string_push(out, digit(n % 10));
        assert(out@ =~= old(out)@ + decimal(n as nat));
    }
}

/// Whether `name` is among `siblings`.
pub fn is_taken(siblings: &Vec<String>, name: &String) -> (taken: bool)
    ensures
        taken == names_of(siblings@).contains(name@),
{
    let mut i: usize = 0;
    while i < siblings.len()
        invariant
            i <= siblings@.len(),
            forall|j: int| 0 <= j < i ==> names_of(siblings@)[j] != name@,
        decreases siblings@.len() - i,
    {
        if siblings[i] == *name {
            assert(names_of(siblings@)[i as int] == name@);
            return true;
        }
        i += 1;
    }
    false
}

/// Builds the name with ` (k)` put before its extension.
pub fn build_numbered_name(name: &Vec<char>, k: u128) -> (out: String)
    ensures
        out@ == numbered_name(name@, k as nat),
{
    assert(name@.skip(0) =~= name@);
    let split = match find_dot(name, 0) {
        Some(i) => if i == 0 {
            name.len()
        } else {
            i
        },
        None => name.len(),
    };
    proof {
        lemma_dot_index_bounds(name@);
        assert(name@.subrange(0, split as int) =~= stem(name@));
        assert(name@.subrange(split as int, name@.len() as int) =~= dotted_extension(name@));
    }
    let mut out = String::new();
    push_chars(&mut out, name, 0, split);
    string_push(&mut out, ' ');
    string_push(&mut out, '(');
    push_decimal(&mut out, k);
    string_push(&mut out, ')');
    push_chars(&mut out, name, split, name.len());
    assert(out@ =~= numbered_name(name@, k as nat));
    out
}

/// A name that is not among `siblings`: `wanted` itself where it is free,
/// else `wanted` with the smallest counter, from 1 up, that makes it free.
pub fn unique_name(wanted: &str, siblings: &Vec<String>) -> (out: String)
    ensures
        is_unique_name_for(out@, wanted@, names_of(siblings@)),
{
    let plain = wanted.to_owned();
    if !is_taken(siblings, &plain) {
        return plain;
    }
    let chars = to_chars(wanted);
    let limit: u128 = siblings.len() as u128 + 1;
    let mut k: u128 = 1;
    loop
        invariant
            1 <= k <= limit,
            limit == siblings@.len() + 1,
            chars@ == wanted@,
            names_of(siblings@).contains(wanted@),
            forall|j: int| 1 <= j < k ==> names_of(siblings@).contains(#[trigger] numbered_name(wanted@, j as nat)),
        decreases limit - k,
    {
        let candidate = build_numbered_name(&chars, k);
        if !is_taken(siblings, &candidate) {
            return candidate;
        }
        proof {
            if k == limit {
                lemma_numbered_names_taken(wanted@, names_of(siblings@), k as nat);
            }
        }
        k += 1;
    }
}

/// That `out` is the path to write to in place of `path`: `path` itself
/// where the name of its last component is free, else the path of the
/// first numbered name that is, beside it.
pub open spec fn is_unique_path_for(out: Seq<char>, path: Seq<char>, taken: Seq<Seq<char>>) -> bool {
    if !taken.contains(file_name(path)) {
        out == path
    } else {
        exists|k: nat|
            {
                &&& k >= 1
                &&& out == parent_part(path) + #[trigger] numbered_name(file_name(path), k)
                &&& !taken.contains(numbered_name(file_name(path), k))
                &&& forall|j: int|
                    1 <= j < k ==> taken.contains(#[trigger] numbered_name(file_name(path), j as nat))
            }
    }
}

/// The path to write to in place of `original_path`, given the names
/// already present in its directory: the path itself where its name is
/// free, else the path with ` (1)`, ` (2)`, ... put before the extension,
/// at the first counter that gives a free name.
pub fn get_unique_path(original_path: &str, siblings: &Vec<String>) -> (out: String)
    ensures
        is_unique_path_for(out@, original_path@, names_of(siblings@)),
{
    let chars = to_chars(original_path);
    let at = find_name_start(&chars);
    let wanted = file_name_of(original_path);
    if !is_taken(siblings, &wanted) {
        return original_path.to_owned();
    }
    let name = unique_name(wanted.as_str(), siblings);
    let name_chars = to_chars(name.as_str());
    let mut out = String::new();
    push_chars(&mut out, &chars, 0, at);
    push_chars(&mut out, &name_chars, 0, name_chars.len());
    proof {
        let taken = names_of(siblings@);
        assert(out@ =~= parent_part(original_path@) + name@);
        let k = choose|k: nat|
            {
                &&& k >= 1
                &&& name@ == #[trigger] numbered_name(wanted@, k)
                &&& forall|j: int| 1 <= j < k ==> taken.contains(#[trigger] numbered_name(wanted@, j as nat))
            };
        assert(out@ == parent_part(original_path@) + numbered_name(file_name(original_path@), k));
    }
    out
}

/// The path of `name` in the directory that `path` lies in.
pub fn sibling_path(path: &str, name: &str) -> (out: String)
    ensures
        out@ == parent_part(path@) + name@,
{
    let chars = to_chars(path);
    let at = find_name_start(&chars);
    let tail = to_chars(name);
    let mut out = String::new();
    push_chars(&mut out, &chars, 0, at);
    push_chars(&mut out, &tail, 0, tail.len());
    assert(out@ =~= parent_part(path@) + name@);
    out
}

/// The last component of a path.
pub fn file_name_of(path: &str) -> (out: String)
    ensures
        out@ == file_name(path@),
{
    let chars = to_chars(path);
    let name = name_chars(&chars);
    let mut out = String::new();
    push_chars(&mut out, &name, 0, name.len());
    assert(out@ =~= file_name(path@));
    out
}

} // verus!
