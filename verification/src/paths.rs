//! Paths as text: joining, the last component and its extension, and names for copies
//! that do not overwrite what is there.
use crate::text;
use crate::text::{chars_of, decimal_of, string_of};
use vstd::prelude::*;

verus! {

/// `name` below the directory `base`; an absolute `name` stands for itself.
pub open spec fn joined(base: Seq<char>, name: Seq<char>) -> Seq<char> {
    if name.len() > 0 && name[0] == '/' {
        name
    } else if base.len() == 0 || base.last() == '/' {
        base + name
    } else {
        base + "/"@ + name
    }
}

/// Joins a directory and a name: see [`joined`].
pub fn join_path(base: &str, name: &str) -> (r: String)
    ensures
        r@ == joined(base@, name@),
{
    let tail = chars_of(name);
    if tail.len() > 0 && tail[0] == '/' {
        return name.to_string();
    }
    let head = chars_of(base);
    let mut r = base.to_string();
    if !(head.len() == 0 || head[head.len() - 1] == '/') {
        r.append("/");
    }
    r.append(name);
    r
}

/// Where the last slash-separated segment of `path` begins.
pub open spec fn last_segment_start(path: Seq<char>) -> nat
    decreases path.len(),
{
    if path.len() == 0 {
        0
    } else if path.last() == '/' {
        path.len()
    } else {
        last_segment_start(path.drop_last())
    }
}

proof fn lemma_last_segment(path: Seq<char>)
    ensures
        last_segment_start(path) <= path.len(),
        last_segment_start(path) > 0 ==> path[last_segment_start(path) - 1] == '/',
        forall|i: int| last_segment_start(path) <= i < path.len() ==> path[i] != '/',
    decreases path.len(),
{
    if path.len() > 0 && path.last() != '/' {
        lemma_last_segment(path.drop_last());
        let start = last_segment_start(path);
        assert forall|i: int| start <= i < path.len() implies path[i] != '/' by {
            if i < path.len() - 1 {
                assert(path.drop_last()[i] != '/');
            }
        }
    }
}

/// The last component of `path`, unless it is the parent directory `..`. Empty segments
/// and `.` are no components.
pub open spec fn file_name(path: Seq<char>) -> Option<Seq<char>>
    decreases path.len(),
    via file_name_shrinks
{
    if path.len() == 0 {
        None
    } else {
        let start = last_segment_start(path) as int;
        let segment = path.skip(start);
        if segment == Seq::<char>::empty() || segment == "."@ {
            if start == 0 {
                None
            } else {
                file_name(path.take(start - 1))
            }
        } else if segment == ".."@ {
            None
        } else {
            Some(segment)
        }
    }
}

#[via_fn]
proof fn file_name_shrinks(path: Seq<char>) {
    lemma_last_segment(path);
}

/// The position of the last dot of `name`, or 0 where there is none or it is the first
/// character.
pub open spec fn extension_dot(name: Seq<char>) -> nat
    decreases name.len(),
{
    if name.len() == 0 {
        0
    } else if name.last() == '.' {
        (name.len() - 1) as nat
    } else {
        extension_dot(name.drop_last())
    }
}

proof fn lemma_extension_dot(name: Seq<char>)
    ensures
        name.len() == 0 || extension_dot(name) < name.len(),
        extension_dot(name) > 0 ==> name[extension_dot(name) as int] == '.',
    decreases name.len(),
{
    if name.len() > 0 && name.last() != '.' {
        lemma_extension_dot(name.drop_last());
    }
}

/// A file name's stem and extension: split at the last dot, unless there is none or the
/// name begins with it.
pub open spec fn stem_and_extension(name: Seq<char>) -> (Seq<char>, Option<Seq<char>>) {
    let dot = extension_dot(name) as int;
    if dot == 0 {
        (name, None)
    } else {
        (name.take(dot), Some(name.skip(dot + 1)))
    }
}

/// The stem and extension of the last component of `path`; the stem is `item` where there
/// is no such component.
pub open spec fn path_parts(path: Seq<char>) -> (Seq<char>, Option<Seq<char>>) {
    match file_name(path) {
        Some(name) => stem_and_extension(name),
        None => ("item"@, None),
    }
}

/// The name with the number `suffix` before the extension.
pub open spec fn numbered_name(path: Seq<char>, suffix: nat) -> Seq<char> {
    let (stem, extension) = path_parts(path);
    let base = stem + " "@ + text::decimal(suffix);
    match extension {
        Some(extension) => base + "."@ + extension,
        None => base,
    }
}

/// The places tried for a child called `name` of the directory `parent`: first the name
/// itself, then with the numbers 2, 3, and so on.
pub open spec fn child_candidate(parent: Seq<char>, name: Seq<char>, attempt: nat) -> Seq<char> {
    if attempt == 0 {
        joined(parent, name)
    } else {
        joined(parent, numbered_name(name, attempt + 1))
    }
}

fn segment_start(chars: &Vec<char>, end: usize) -> (r: usize)
    requires
        end <= chars@.len(),
    ensures
        r == last_segment_start(chars@.take(end as int)),
        r <= end,
{
    let mut at: usize = end;
    while at > 0 && chars[at - 1] != '/'
        invariant
            at <= end <= chars@.len(),
            last_segment_start(chars@.take(end as int)) == last_segment_start(
                chars@.take(at as int),
            ),
        decreases at,
    {
        assert(chars@.take(at as int).drop_last() =~= chars@.take(at - 1));
        at = at - 1;
    }
    at
}

fn file_name_range(chars: &Vec<char>) -> (r: Option<(usize, usize)>)
    ensures
        match r {
            Some((from, to)) => from <= to <= chars@.len() && file_name(chars@) == Some(
                chars@.subrange(from as int, to as int),
            ),
            None => file_name(chars@) is None,
        },
{
    let mut end: usize = chars.len();
    assert(chars@.take(end as int) =~= chars@);
    while end > 0
        invariant
            end <= chars@.len(),
            file_name(chars@) == file_name(chars@.take(end as int)),
        decreases end,
    {
        let ghost path = chars@.take(end as int);
        let start: usize = segment_start(chars, end);
        let ghost segment = path.skip(start as int);
        assert(segment =~= chars@.subrange(start as int, end as int));
        proof {
            reveal_strlit(".");
            reveal_strlit("..");
            if end == start {
                assert(segment =~= Seq::<char>::empty());
            } else if end - start == 1 && chars@[start as int] == '.' {
                assert(segment =~= "."@);
            } else if end - start == 2 && chars@[start as int] == '.' && chars@[start + 1] == '.' {
                assert(segment =~= ".."@);
            } else {
                assert(segment[0] == chars@[start as int]);
                assert(end - start > 1 ==> segment[1] == chars@[start + 1]);
            }
        }
        if start == end || (end - start == 1 && chars[start] == '.') {
            if start == 0 {
                return None;
            }
            assert(path.take(start - 1) =~= chars@.take(start - 1));
            end = start - 1;
        } else if end - start == 2 && chars[start] == '.' && chars[start + 1] == '.' {
            return None;
        } else {
            return Some((start, end));
        }
    }
    None
}

/// The stem and extension of the last component of `path`: see [`path_parts`].
pub fn split_name(path: &str) -> (r: (String, Option<String>))
    ensures
        r.0@ == path_parts(path@).0,
        crate::model::text_option(r.1) == path_parts(path@).1,
{
    let chars = chars_of(path);
    match file_name_range(&chars) {
        None => ("item".to_string(), None),
        Some((from, to)) => {
            let ghost name = chars@.subrange(from as int, to as int);
            let mut at: usize = to;
            assert(name.take(at - from) =~= name);
            while at > from && chars[at - 1] != '.'
                invariant
                    from <= at <= to <= chars@.len(),
                    name == chars@.subrange(from as int, to as int),
                    extension_dot(name) == extension_dot(name.take(at - from)),
                decreases at,
            {
                assert(name.take(at - from).drop_last() =~= name.take(at - from - 1));
                at = at - 1;
            }
            if at == from || at - from == 1 {
                assert(extension_dot(name) == 0);
                (string_of(&chars, from, to), None)
            } else {
                assert(extension_dot(name) == at - from - 1);
                assert(name.take(at - from - 1) =~= chars@.subrange(from as int, at - 1));
                assert(name.skip(at - from) =~= chars@.subrange(at as int, to as int));
                (string_of(&chars, from, at - 1), Some(string_of(&chars, at, to)))
            }
        },
    }
}

/// The place to try for a child at the given attempt: see [`child_candidate`].
pub fn child_path_candidate(parent: &str, name: &str, attempt: usize) -> (r: String)
    requires
        attempt < 0x7fff_ffff,
    ensures
        r@ == child_candidate(parent@, name@, attempt as nat),
{
    if attempt == 0 {
        return join_path(parent, name);
    }
    let (stem, extension) = split_name(name);
    let mut filename = stem;
    filename.append(" ");
    filename.append(decimal_of(attempt as u64 + 1).as_str());
    if let Some(extension) = extension {
        filename.append(".");
        filename.append(extension.as_str());
    }
    join_path(parent, filename.as_str())
}

/// The first place that is free for a child called `name` of `parent`. `exists` says, for
/// the places tried so far in their order, whether something is there; `None` means that
/// all of them are taken.
pub fn unique_child_path(parent: &str, name: &str, exists: &Vec<bool>) -> (r: Option<String>)
    requires
        exists@.len() <= 0x7fff_ffff,
    ensures
        match r {
            Some(path) => exists|i: int|
                0 <= i < exists@.len() && !(#[trigger] exists@[i]) && path@ == child_candidate(
                    parent@,
                    name@,
                    i as nat,
                ) && (forall|j: int| 0 <= j < i ==> exists@[j]),
            None => forall|j: int| 0 <= j < exists@.len() ==> exists@[j],
        },
{
    for i in 0..exists.len()
        invariant
            exists@.len() <= 0x7fff_ffff,
            forall|j: int| 0 <= j < i ==> exists@[j],
    {
        if !exists[i] {
            let path = child_path_candidate(parent, name, i);
            assert(!exists@[i as int]);
            return Some(path);
        }
    }
    None
}

/// Whether `name` is a single ordinary path component.
pub open spec fn is_component(name: Seq<char>) -> bool {
    &&& name.len() > 0
    &&& !name.contains('/')
    &&& name != "."@
    &&& name != ".."@
}

proof fn lemma_file_name_is_component(path: Seq<char>)
    ensures
        file_name(path) matches Some(name) ==> is_component(name),
    decreases path.len(),
{
    if path.len() > 0 {
        lemma_last_segment(path);
        let start = last_segment_start(path) as int;
        let segment = path.skip(start);
        if segment == Seq::<char>::empty() || segment == "."@ {
            if start > 0 {
                lemma_file_name_is_component(path.take(start - 1));
            }
        } else {
            assert(segment.len() > 0) by {
                if segment.len() == 0 {
                    assert(segment =~= Seq::<char>::empty());
                }
            }
        }
    }
}

proof fn lemma_last_segment_unique(path: Seq<char>, start: nat)
    requires
        start <= path.len(),
        start > 0 ==> path[start - 1] == '/',
        forall|i: int| start <= i < path.len() ==> path[i] != '/',
    ensures
        last_segment_start(path) == start,
{
    lemma_last_segment(path);
    let found = last_segment_start(path);
    if found > start {
        assert(path[found - 1] != '/');
    } else if found < start {
        assert(path[start - 1] != '/');
    }
}

proof fn lemma_file_name_of_joined(base: Seq<char>, name: Seq<char>)
    requires
        base.len() == 0 || base.last() == '/',
        is_component(name),
    ensures
        file_name(base + name) == Some(name),
{
    let path = base + name;
    assert forall|i: int| base.len() <= i < path.len() implies path[i] != '/' by {
        assert(name.contains(name[i - base.len()]));
    }
    lemma_last_segment_unique(path, base.len());
    assert(path.skip(base.len() as int) =~= name);
}

proof fn lemma_numbered_name(path: Seq<char>, suffix: nat)
    ensures
        is_component(numbered_name(path, suffix)),
        file_name(path) matches Some(name) ==> numbered_name(path, suffix).len() > name.len(),
{
    reveal_strlit("item");
    reveal_strlit(" ");
    reveal_strlit(".");
    reveal_strlit("..");
    text::law_decimal_reads_back(suffix);
    lemma_file_name_is_component(path);
    let (stem, extension) = path_parts(path);
    if let Some(name) = file_name(path) {
        lemma_extension_dot(name);
        assert(forall|c: char| stem.contains(c) ==> name.contains(c));
        assert(extension matches Some(e) ==> forall|c: char| e.contains(c) ==> name.contains(c));
    }
    let numbered = numbered_name(path, suffix);
    let digits = text::decimal(suffix);
    assert(stem.len() > 0);
    assert(numbered.len() >= 3);
    assert forall|i: int| 0 <= i < numbered.len() implies numbered[i] != '/' by {
        if i < stem.len() {
            assert(numbered[i] == stem[i]);
            assert(stem.contains(stem[i]));
        } else if i == stem.len() {
            assert(numbered[i] == ' ');
        } else if i < stem.len() + 1 + digits.len() {
            assert(numbered[i] == digits[i - stem.len() - 1]);
            assert(text::is_digit(digits[i - stem.len() - 1]));
        } else if i == stem.len() + 1 + digits.len() {
            assert(numbered[i] == '.');
        } else {
            let e = extension->0;
            assert(numbered[i] == e[i - stem.len() - digits.len() - 2]);
            assert(e.contains(numbered[i]));
        }
    }
}

proof fn lemma_numbered_names_distinct(path: Seq<char>, a: nat, b: nat)
    requires
        numbered_name(path, a) == numbered_name(path, b),
    ensures
        a == b,
{
    reveal_strlit(" ");
    reveal_strlit(".");
    let (stem, extension) = path_parts(path);
    let left = numbered_name(path, a);
    let right = numbered_name(path, b);
    let n = stem.len() as int + 1;
    let da = text::decimal(a);
    let db = text::decimal(b);
    let rest: int = match extension {
        Some(e) => 1 + e.len() as int,
        None => 0,
    };
    assert(left.len() == n + da.len() + rest);
    assert(right.len() == n + db.len() + rest);
    assert(left.subrange(n, n + da.len()) =~= da);
    assert(right.subrange(n, n + db.len()) =~= db);
    text::law_decimal_distinct(a, b);
}

/// The places tried for a child are all different, so where `n` of them are taken, one of
/// the first `n + 1` is free.
pub proof fn law_child_candidates_distinct(
    parent: Seq<char>,
    name: Seq<char>,
    i: nat,
    j: nat,
)
    requires
        i < j,
    ensures
        child_candidate(parent, name, i) != child_candidate(parent, name, j),
{
    reveal_strlit("/");
    let base = if parent.len() == 0 || parent.last() == '/' {
        parent
    } else {
        parent + "/"@
    };
    let late = numbered_name(name, j + 1);
    lemma_numbered_name(name, j + 1);
    assert(late.contains(late[0]));
    assert(child_candidate(parent, name, j) == base + late);
    if child_candidate(parent, name, i) == child_candidate(parent, name, j) {
        lemma_file_name_of_joined(base, late);
        if i > 0 {
            let early = numbered_name(name, i + 1);
            lemma_numbered_name(name, i + 1);
            assert(early.contains(early[0]));
            assert(early =~= (base + early).skip(base.len() as int));
            assert(late =~= (base + late).skip(base.len() as int));
            lemma_numbered_names_distinct(name, i + 1, j + 1);
        } else if name.len() > 0 && name[0] == '/' {
            assert(file_name(name) == Some(late));
        } else {
            assert(name =~= (base + name).skip(base.len() as int));
            assert(late =~= (base + late).skip(base.len() as int));
            lemma_file_name_of_joined(Seq::empty(), late);
            assert(Seq::<char>::empty() + late =~= late);
        }
    }
}

/// What a path has behind its directory and the slash that follows it.
pub open spec fn child_part(parent: Seq<char>, path: Seq<char>) -> Seq<char> {
    if parent.len() == 0 || parent.last() == '/' {
        path.skip(parent.len() as int)
    } else {
        path.skip(parent.len() as int + 1)
    }
}

/// Every place tried for a child whose name holds no slash is the directory, a slash where
/// the directory does not end in one, and a component of a path. Only a child called `.` or
/// `..` has a first place that is none: the directory itself, or the one above.
pub proof fn law_children_stand_in_their_directory(
    parent: Seq<char>,
    name: Seq<char>,
    attempt: nat,
)
    requires
        name.len() > 0,
        !name.contains('/'),
    ensures
        ({
            let path = child_candidate(parent, name, attempt);
            &&& parent.is_prefix_of(path)
            &&& forall|i: int| parent.len() < i < path.len() ==> path[i] != '/'
            &&& parent.len() > 0 && parent.last() != '/' ==> path[parent.len() as int] == '/'
            &&& is_component(child_part(parent, path)) || attempt == 0 && (name == "."@ || name
                == ".."@)
        }),
{
    reveal_strlit("/");
    let child = if attempt == 0 {
        name
    } else {
        lemma_numbered_name(name, attempt + 1);
        numbered_name(name, attempt + 1)
    };
    let path = child_candidate(parent, name, attempt);
    assert(child.contains(child[0]));
    assert(path == joined(parent, child));
    assert(parent =~= path.subrange(0, parent.len() as int));
    assert(child_part(parent, path) =~= child);
    assert forall|i: int| parent.len() < i < path.len() implies path[i] != '/' by {
        let start = path.len() - child.len();
        assert(path[i] == child[i - start]);
        assert(child.contains(child[i - start]));
    }
}

/// A relative name joined to a directory stands below it, behind exactly one slash; joined to
/// nothing it stays as it is. A name that begins with a slash stands for itself.
pub proof fn law_names_join_below_their_directory(base: Seq<char>, name: Seq<char>)
    ensures
        name.len() > 0 && name[0] == '/' ==> joined(base, name) == name,
        base.len() == 0 ==> joined(base, name) == name,
        !(name.len() > 0 && name[0] == '/') && base.len() > 0 && base.last() != '/' ==> joined(
            base,
            name,
        ) == base + seq!['/'] + name,
        !(name.len() > 0 && name[0] == '/') && base.len() > 0 && base.last() == '/' ==> joined(
            base,
            name,
        ) == base + name,
{
    reveal_strlit("/");
    assert("/"@ =~= seq!['/']);
    if base.len() == 0 {
        assert(base + name =~= name);
    }
}

proof fn lemma_dot_before(stem: Seq<char>, extension: Seq<char>)
    requires
        !extension.contains('.'),
    ensures
        extension_dot(stem + seq!['.'] + extension) == stem.len(),
    decreases extension.len(),
{
    let name = stem + seq!['.'] + extension;
    if extension.len() > 0 {
        let shorter = extension.drop_last();
        assert(extension.contains(extension.last()));
        assert forall|c: char| shorter.contains(c) implies extension.contains(c) by {
            let k = choose|k: int| 0 <= k < shorter.len() && shorter[k] == c;
            assert(extension[k] == c);
        }
        lemma_dot_before(stem, shorter);
        assert(name.drop_last() =~= stem + seq!['.'] + shorter);
        assert(name.last() == extension.last());
    } else {
        assert(name =~= stem + seq!['.']);
        assert(name.last() == '.');
    }
}

proof fn lemma_no_dot(name: Seq<char>)
    requires
        !name.contains('.'),
    ensures
        extension_dot(name) == 0,
    decreases name.len(),
{
    if name.len() > 0 {
        let shorter = name.drop_last();
        assert(name.contains(name.last()));
        assert forall|c: char| shorter.contains(c) implies name.contains(c) by {
            let k = choose|k: int| 0 <= k < shorter.len() && shorter[k] == c;
            assert(name[k] == c);
        }
        lemma_no_dot(shorter);
    }
}

/// The places tried for a file: first its own name, then its stem with the numbers 2, 3, and
/// so on before the extension, which stays as it is.
pub proof fn law_numbers_stand_before_the_extension(
    parent: Seq<char>,
    stem: Seq<char>,
    extension: Seq<char>,
    attempt: nat,
)
    requires
        stem.len() > 0,
        stem[0] != '.' || stem.len() + extension.len() > 1,
        !stem.contains('/'),
        !extension.contains('/'),
        !extension.contains('.'),
        parent.len() > 0,
        parent.last() != '/',
    ensures
        ({
            let name = stem + seq!['.'] + extension;
            let below = parent + seq!['/'];
            &&& child_candidate(parent, name, 0) == below + name
            &&& attempt > 0 ==> child_candidate(parent, name, attempt) == below + stem + seq![' ']
                + text::decimal(attempt + 1) + seq!['.'] + extension
            &&& !stem.contains('.') ==> child_candidate(parent, stem, 0) == below + stem
            &&& !stem.contains('.') && attempt > 0 ==> child_candidate(parent, stem, attempt)
                == below + stem + seq![' '] + text::decimal(attempt + 1)
        }),
{
    reveal_strlit("/");
    reveal_strlit(" ");
    reveal_strlit(".");
    reveal_strlit("..");
    let name = stem + seq!['.'] + extension;
    let below = parent + seq!['/'];
    let digits = text::decimal(attempt + 1);
    assert("/"@ =~= seq!['/']);
    assert(" "@ =~= seq![' ']);
    assert("."@ =~= seq!['.']);
    assert(stem.contains(stem[0]));
    assert forall|c: char| name.contains(c) && c != '.' implies stem.contains(c)
        || extension.contains(c) by {
        let k = choose|k: int| 0 <= k < name.len() && name[k] == c;
        if k < stem.len() {
            assert(stem[k] == c);
        } else if k > stem.len() {
            assert(extension[k - stem.len() - 1] == c);
        }
    }
    assert(name[0] == stem[0]);
    assert(name != "."@ && name != ".."@);
    assert(is_component(name));
    lemma_file_name_of_joined(Seq::empty(), name);
    assert(Seq::<char>::empty() + name =~= name);
    lemma_dot_before(stem, extension);
    assert(name.take(stem.len() as int) =~= stem);
    assert(name.skip(stem.len() as int + 1) =~= extension);
    assert(joined(parent, name) =~= below + name);
    let numbered = numbered_name(name, attempt + 1);
    assert(numbered =~= stem + seq![' '] + digits + seq!['.'] + extension);
    assert(numbered[0] == stem[0]);
    assert(joined(parent, numbered) =~= below + stem + seq![' '] + digits + seq!['.'] + extension);
    if !stem.contains('.') {
        assert(stem != "."@ && stem != ".."@);
        lemma_file_name_of_joined(Seq::empty(), stem);
        assert(Seq::<char>::empty() + stem =~= stem);
        lemma_no_dot(stem);
        let plain = numbered_name(stem, attempt + 1);
        assert(plain =~= stem + seq![' '] + digits);
        assert(plain[0] == stem[0]);
        assert(joined(parent, stem) =~= below + stem);
        assert(joined(parent, plain) =~= below + stem + seq![' '] + digits);
    }
}

/// Every place tried for a child is the place tried for it in no directory, joined to its
/// directory: what a child is called does not depend on where it lies.
pub proof fn law_places_do_not_depend_on_the_directory(
    parent: Seq<char>,
    name: Seq<char>,
    attempt: nat,
)
    ensures
        child_candidate(parent, name, attempt) == joined(
            parent,
            child_candidate(Seq::empty(), name, attempt),
        ),
        child_candidate(Seq::empty(), name, 0) == name,
{
    let child = if attempt == 0 {
        name
    } else {
        numbered_name(name, attempt + 1)
    };
    assert(Seq::<char>::empty() + child =~= child);
    assert(Seq::<char>::empty() + name =~= name);
}

/// A name that begins with its only dot has no extension: the number stands behind it. Of a
/// name with directories before it only the last component counts, and one that has no such
/// component is called `item`.
pub proof fn law_hidden_names_are_numbered_behind(
    rest: Seq<char>,
    base: Seq<char>,
    name: Seq<char>,
    number: nat,
)
    ensures
        rest.len() > 0 && !rest.contains('.') && !rest.contains('/') ==> numbered_name(
            seq!['.'] + rest,
            number,
        ) == seq!['.'] + rest + seq![' '] + text::decimal(number),
        is_component(name) ==> numbered_name(base + seq!['/'] + name, number) == numbered_name(
            name,
            number,
        ),
        numbered_name(Seq::empty(), number) == "item"@ + seq![' '] + text::decimal(number),
        numbered_name(".."@, number) == "item"@ + seq![' '] + text::decimal(number),
        numbered_name("."@, number) == "item"@ + seq![' '] + text::decimal(number),
{
    reveal_strlit(" ");
    reveal_strlit(".");
    reveal_strlit("..");
    let hidden = seq!['.'] + rest;
    let digits = text::decimal(number);
    assert(" "@ =~= seq![' ']);
    if rest.len() > 0 && !rest.contains('.') && !rest.contains('/') {
        assert(rest.contains(rest[0]));
        assert(hidden[1] == rest[0]);
        assert forall|i: int| 0 <= i < hidden.len() implies hidden[i] != '/' by {
            if i > 0 {
                assert(rest.contains(rest[i - 1]));
            }
        }
        assert(is_component(hidden));
        lemma_file_name_of_joined(Seq::empty(), hidden);
        assert(Seq::<char>::empty() + hidden =~= hidden);
        lemma_dot_before(Seq::empty(), rest);
        assert(Seq::<char>::empty() + seq!['.'] + rest =~= hidden);
        assert(numbered_name(hidden, number) =~= hidden + seq![' '] + digits);
    }
    if is_component(name) {
        lemma_file_name_of_joined(base + seq!['/'], name);
        lemma_file_name_of_joined(Seq::empty(), name);
        assert(Seq::<char>::empty() + name =~= name);
    }
    lemma_last_segment_unique("."@, 0);
    lemma_last_segment_unique(".."@, 0);
    assert("."@.skip(0) =~= "."@);
    assert(".."@.skip(0) =~= ".."@);
}

} // verus!
