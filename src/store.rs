use vstd::prelude::*;
use vstd::multiset::Multiset;
use crate::template::{SessionTemplate, TemplateError};

verus! {

/// The extension of a template file.
pub open spec fn template_ext() -> Seq<char> {
    seq!['.', 't', 'o', 'm', 'l']
}

/// The file that holds the template named `name`.
pub open spec fn spec_template_file_name(name: Seq<char>) -> Seq<char> {
    name + template_ext()
}

/// A file name with a stem before the template extension.
pub open spec fn spec_is_template_file(f: Seq<char>) -> bool {
    f.len() > template_ext().len() && f.subrange(f.len() - template_ext().len(), f.len() as int)
        == template_ext()
}

/// `part` appended to the path `base` as a path component.
pub open spec fn spec_join_path(base: Seq<char>, part: Seq<char>) -> Seq<char> {
    if base.len() == 0 {
        part
    } else if base.last() == '/' {
        base + part
    } else {
        base + seq!['/'] + part
    }
}

/// The configuration directory used when the platform names none.
pub open spec fn fallback_config_dir() -> Seq<char> {
    seq!['~', '/', '.', 'c', 'o', 'n', 'f', 'i', 'g']
}

/// The template store inside a configuration directory.
pub open spec fn spec_templates_under(config: Option<Seq<char>>) -> Seq<char> {
    let base = match config {
        Some(c) => c,
        None => fallback_config_dir(),
    };
    spec_join_path(
        spec_join_path(base, seq!['t', 'm', 'x']),
        seq!['t', 'e', 'm', 'p', 'l', 'a', 't', 'e', 's'],
    )
}

pub fn template_file_name(name: &str) -> (r: String)
    ensures
        r@ == spec_template_file_name(name@),
{
    let mut r = String::from_str(name);
    r.append(".toml");
    proof {
        reveal_strlit(".toml");
    }
    assert(r@ =~= spec_template_file_name(name@));
    r
}

pub fn is_template_file(file_name: &str) -> (r: bool)
    ensures
        r == spec_is_template_file(file_name@),
{
    let n = file_name.unicode_len();
    if n <= 5 {
        return false;
    }
    let r = file_name.get_char(n - 5) == '.' && file_name.get_char(n - 4) == 't'
        && file_name.get_char(n - 3) == 'o' && file_name.get_char(n - 2) == 'm'
        && file_name.get_char(n - 1) == 'l';
    let ghost tail = file_name@.subrange(n - 5, n as int);
    assert(r ==> tail =~= template_ext());
    assert(tail == template_ext() ==> tail[0] == '.' && tail[1] == 't' && tail[2] == 'o'
        && tail[3] == 'm' && tail[4] == 'l');
    r
}

pub fn join_path(base: &str, part: &str) -> (r: String)
    ensures
        r@ == spec_join_path(base@, part@),
{
    let n = base.unicode_len();
    let mut r = String::from_str(base);
    if n > 0 && base.get_char(n - 1) != '/' {
        r.append("/");
        proof {
            reveal_strlit("/");
        }
    }
    r.append(part);
    assert(r@ =~= spec_join_path(base@, part@));
    r
}

/// The template store inside the configuration directory `config`, or
/// inside `~/.config` where there is none.
pub fn templates_under(config: Option<String>) -> (r: String)
    ensures
        r@ == spec_templates_under(
            match config {
                Some(c) => Some(c@),
                None => None,
            },
        ),
{
    let base = match config {
        Some(c) => c,
        None => String::from_str("~/.config"),
    };
    proof {
        reveal_strlit("~/.config");
        reveal_strlit("tmx");
        reveal_strlit("templates");
    }
    assert("~/.config"@ =~= fallback_config_dir());
    assert("tmx"@ =~= seq!['t', 'm', 'x']);
    assert("templates"@ =~= seq!['t', 'e', 'm', 'p', 'l', 'a', 't', 'e', 's']);
    let app = join_path(base.as_str(), "tmx");
    join_path(app.as_str(), "templates")
}

/// Relies on dirs::config_dir: the user's configuration directory where the
/// platform has one. It comes from the environment, so nothing is stated of it.
#[verifier::external_body]
fn config_dir() -> (r: Option<String>) {
    dirs::config_dir().map(|p| p.to_string_lossy().into_owned())
}

/// The directory of the template store: `tmx/templates` under the user's
/// configuration directory.
pub fn template_dir() -> (r: String)
    ensures
        exists|c: Option<Seq<char>>| r@ == spec_templates_under(c),
{
    let c = config_dir();
    let ghost g = match &c {
        Some(s) => Some(s@),
        None => None,
    };
    let r = templates_under(c);
    assert(r@ == spec_templates_under(g));
    r
}

/// Whether the file that holds the template `name` is among `file_names`,
/// the names of the files in the store directory.
pub open spec fn stored(name: Seq<char>, file_names: Seq<String>) -> bool {
    exists|i: int| 0 <= i < file_names.len() && #[trigger] file_names[i]@ == spec_template_file_name(name)
}

pub fn template_exists(name: &str, file_names: &Vec<String>) -> (r: bool)
    ensures
        r == stored(name@, file_names@),
{
    let f = template_file_name(name);
    let mut i: usize = 0;
    while i < file_names.len()
        invariant
            i <= file_names@.len(),
            f@ == spec_template_file_name(name@),
            forall|j: int| 0 <= j < i ==> #[trigger] file_names@[j]@ != f@,
        decreases file_names@.len() - i,
    {
        if file_names[i] == f {
            return true;
        }
        i = i + 1;
    }
    false
}

/// Decides the deletion of the template `name` from a store directory that
/// holds `file_names`: the file to remove, or `NotFound` (and nothing to
/// remove) where the template is not stored.
pub fn delete_template(name: &str, file_names: &Vec<String>) -> (r: Result<String, TemplateError>)
    ensures
        r is Ok <==> stored(name@, file_names@),
        r matches Ok(f) ==> f@ == spec_template_file_name(name@),
        r matches Err(e) ==> e matches TemplateError::NotFound { name: n } && n@ == name@,
{
    if template_exists(name, file_names) {
        Ok(template_file_name(name))
    } else {
        Err(TemplateError::NotFound { name: name.to_string() })
    }
}

/// A file of the store directory: its name, and the template it holds
/// where it could be read and parsed.
#[derive(Clone, Debug)]
pub struct StoreEntry {
    pub file_name: String,
    pub template: Option<SessionTemplate>,
}

/// Strict lexicographic order of names, character by character.
pub open spec fn name_lt(a: Seq<char>, b: Seq<char>) -> bool
    decreases a.len(),
{
    if a.len() == 0 {
        b.len() > 0
    } else if b.len() == 0 {
        false
    } else if a[0] != b[0] {
        (a[0] as u32) < (b[0] as u32)
    } else {
        name_lt(a.skip(1), b.skip(1))
    }
}

/// The templates of the entries that are template files and were parsed,
/// in the order of the entries.
pub open spec fn listed(entries: Seq<StoreEntry>) -> Seq<SessionTemplate>
    decreases entries.len(),
{
    if entries.len() == 0 {
        seq![]
    } else {
        let e = entries.last();
        let rest = listed(entries.drop_last());
        if spec_is_template_file(e.file_name@) && e.template is Some {
            rest.push(e.template->Some_0)
        } else {
            rest
        }
    }
}

/// `x` placed after every template whose name is not above its own.
pub open spec fn insert_by_name(s: Seq<SessionTemplate>, x: SessionTemplate) -> Seq<
    SessionTemplate,
>
    decreases s.len(),
{
    if s.len() == 0 {
        seq![x]
    } else if name_lt(x.template.name@, s[0].template.name@) {
        seq![x] + s
    } else {
        seq![s[0]] + insert_by_name(s.skip(1), x)
    }
}

/// The templates sorted by name; those with equal names keep their order.
pub open spec fn sort_by_name(s: Seq<SessionTemplate>) -> Seq<SessionTemplate>
    decreases s.len(),
{
    if s.len() == 0 {
        seq![]
    } else {
        insert_by_name(sort_by_name(s.drop_last()), s.last())
    }
}

fn name_less(a: &String, b: &String) -> (r: bool)
    ensures
        r == name_lt(a@, b@),
{
    let la = a.as_str().unicode_len();
    let lb = b.as_str().unicode_len();
    let mut i: usize = 0;
    assert(a@.skip(0) =~= a@);
    assert(b@.skip(0) =~= b@);
    while i < la && i < lb && a.as_str().get_char(i) == b.as_str().get_char(i)
        invariant
            la == a@.len(),
            lb == b@.len(),
            i <= la,
            i <= lb,
            name_lt(a@, b@) == name_lt(a@.skip(i as int), b@.skip(i as int)),
        decreases la - i,
    {
        assert(a@.skip(i as int).skip(1) =~= a@.skip(i + 1));
        assert(b@.skip(i as int).skip(1) =~= b@.skip(i + 1));
        i = i + 1;
    }
    if i == la {
        i < lb
    } else if i == lb {
        false
    } else {
        (a.as_str().get_char(i) as u32) < (b.as_str().get_char(i) as u32)
    }
}

proof fn lemma_insert_at(s: Seq<SessionTemplate>, x: SessionTemplate, k: int)
    requires
        0 <= k <= s.len(),
        forall|j: int| 0 <= j < k ==> !name_lt(x.template.name@, #[trigger] s[j].template.name@),
        k < s.len() ==> name_lt(x.template.name@, s[k].template.name@),
    ensures
        insert_by_name(s, x) == s.insert(k, x),
    decreases k,
{
    if s.len() == 0 {
        assert(s.insert(k, x) =~= seq![x]);
    } else if k == 0 {
        assert(s.insert(k, x) =~= seq![x] + s);
    } else {
        let t = s.skip(1);
        assert forall|j: int| 0 <= j < k - 1 implies !name_lt(
            x.template.name@,
            #[trigger] t[j].template.name@,
        ) by {
            assert(t[j] == s[j + 1]);
        }
        lemma_insert_at(t, x, k - 1);
        assert(s.insert(k, x) =~= seq![s[0]] + t.insert(k - 1, x));
    }
}

fn insert_sorted(out: &mut Vec<SessionTemplate>, x: SessionTemplate)
    ensures
        final(out)@ == insert_by_name(old(out)@, x),
{
    let mut k: usize = 0;
    while k < out.len() && !name_less(&x.template.name, &out[k].template.name)
        invariant
            k <= out@.len(),
            forall|j: int|
                0 <= j < k ==> !name_lt(x.template.name@, #[trigger] out@[j].template.name@),
        decreases out@.len() - k,
    {
        k = k + 1;
    }
    proof {
        lemma_insert_at(out@, x, k as int);
    }
    out.insert(k, x);
}

/// The store's listing: the templates of the template files that could be
/// read and parsed, sorted by name. Other files are passed over.
pub fn load_all_templates(entries: Vec<StoreEntry>) -> (r: Vec<SessionTemplate>)
    ensures
        r@ == sort_by_name(listed(entries@)),
        entries@.len() == 0 ==> r@.len() == 0,
{
    let ghost all = entries@;
    let mut rest = entries;
    let mut out: Vec<SessionTemplate> = Vec::new();
    let ghost mut i: int = 0;
    assert(all.take(0) =~= seq![]);
    assert(rest@ =~= all.skip(0));
    while rest.len() > 0
        invariant
            0 <= i <= all.len(),
            rest@ == all.skip(i),
            out@ == sort_by_name(listed(all.take(i))),
        decreases rest@.len(),
    {
        let e = rest.remove(0);
        let ghost prefix = all.take(i + 1);
        assert(prefix.drop_last() =~= all.take(i));
        assert(prefix.last() == e);
        if is_template_file(e.file_name.as_str()) {
            match e.template {
                Some(t) => {
                    let ghost before = listed(all.take(i));
                    assert(before.push(t).drop_last() =~= before);
                    insert_sorted(&mut out, t);
                },
                None => {},
            }
        }
        assert(rest@ =~= all.skip(i + 1));
        proof {
            i = i + 1;
        }
    }
    assert(all.take(i) =~= all);
    out
}

/// Names never decrease along the sequence.
pub open spec fn sorted_by_name(s: Seq<SessionTemplate>) -> bool {
    forall|i: int, j: int|
        0 <= i < j < s.len() ==> !name_lt(
            #[trigger] s[j].template.name@,
            #[trigger] s[i].template.name@,
        )
}

proof fn lemma_name_lt_asym(a: Seq<char>, b: Seq<char>)
    requires
        name_lt(a, b),
    ensures
        !name_lt(b, a),
    decreases a.len(),
{
    if a.len() > 0 && b.len() > 0 && a[0] == b[0] {
        lemma_name_lt_asym(a.skip(1), b.skip(1));
    }
}

proof fn lemma_name_lt_trans(a: Seq<char>, b: Seq<char>, c: Seq<char>)
    requires
        name_lt(a, b),
        name_lt(b, c),
    ensures
        name_lt(a, c),
    decreases a.len(),
{
    if a.len() > 0 && b.len() > 0 && c.len() > 0 && a[0] == b[0] && b[0] == c[0] {
        lemma_name_lt_trans(a.skip(1), b.skip(1), c.skip(1));
    }
}

proof fn lemma_insert_by_name(s: Seq<SessionTemplate>, x: SessionTemplate)
    requires
        sorted_by_name(s),
    ensures
        sorted_by_name(insert_by_name(s, x)),
        insert_by_name(s, x).to_multiset() == s.to_multiset().insert(x),
    decreases s.len(),
{
    broadcast use vstd::seq_lib::group_to_multiset_ensures;

    let r = insert_by_name(s, x);
    if s.len() == 0 {
        assert(r =~= seq![].push(x));
        assert(seq![].to_multiset() =~= Multiset::<SessionTemplate>::empty());
        assert(s =~= seq![]);
    } else if name_lt(x.template.name@, s[0].template.name@) {
        assert(r =~= s.insert(0, x));
        assert forall|i: int, j: int| 0 <= i < j < r.len() implies !name_lt(
            #[trigger] r[j].template.name@,
            #[trigger] r[i].template.name@,
        ) by {
            if i == 0 {
                let y = r[j].template.name@;
                if j == 1 {
                    lemma_name_lt_asym(x.template.name@, s[0].template.name@);
                } else if name_lt(y, x.template.name@) {
                    assert(r[j] == s[j - 1]);
                    lemma_name_lt_trans(y, x.template.name@, s[0].template.name@);
                }
            } else {
                assert(r[i] == s[i - 1] && r[j] == s[j - 1]);
            }
        }
    } else {
        let t = s.skip(1);
        assert(sorted_by_name(t)) by {
            assert forall|i: int, j: int| 0 <= i < j < t.len() implies !name_lt(
                #[trigger] t[j].template.name@,
                #[trigger] t[i].template.name@,
            ) by {
                assert(t[i] == s[i + 1] && t[j] == s[j + 1]);
            }
        }
        lemma_insert_by_name(t, x);
        let u = insert_by_name(t, x);
        assert(r =~= u.insert(0, s[0]));
        assert(s =~= t.insert(0, s[0]));
        assert(r.to_multiset() =~= s.to_multiset().insert(x));
        assert forall|i: int, j: int| 0 <= i < j < r.len() implies !name_lt(
            #[trigger] r[j].template.name@,
            #[trigger] r[i].template.name@,
        ) by {
            if i == 0 {
                let y = r[j];
                assert(y == u[j - 1]);
                assert(u.to_multiset().count(y) > 0);
                if y != x {
                    assert(t.to_multiset().count(y) > 0);
                    assert(t.contains(y));
                    let m = choose|m: int| 0 <= m < t.len() && t[m] == y;
                    assert(s[m + 1] == y);
                }
            } else {
                assert(r[i] == u[i - 1] && r[j] == u[j - 1]);
            }
        }
    }
}

/// Sorting by name yields names in ascending order and keeps exactly the
/// templates it was given, each as often as it was given.
pub proof fn lemma_sort_by_name(s: Seq<SessionTemplate>)
    ensures
        sorted_by_name(sort_by_name(s)),
        sort_by_name(s).to_multiset() == s.to_multiset(),
    decreases s.len(),
{
    broadcast use vstd::seq_lib::group_to_multiset_ensures;

    if s.len() == 0 {
        assert(sort_by_name(s) =~= s);
    } else {
        lemma_sort_by_name(s.drop_last());
        lemma_insert_by_name(sort_by_name(s.drop_last()), s.last());
        assert(s =~= s.drop_last().push(s.last()));
    }
}

/// The listing of a store directory is sorted by name and holds exactly the
/// templates of the template files that parsed, once per file, whatever
/// other files stand beside them.
pub proof fn lemma_listing_sorted(entries: Seq<StoreEntry>)
    ensures
        sorted_by_name(sort_by_name(listed(entries))),
        sort_by_name(listed(entries)).to_multiset() == listed(entries).to_multiset(),
{
    lemma_sort_by_name(listed(entries));
}

} // verus!
