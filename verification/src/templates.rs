//! Which templates the service needs, and the check that all of them are
//! loaded.

use vstd::prelude::*;
use vstd::string::StringExecFns;

verus! {

/// The names of a list of strings.
pub open spec fn names(list: Seq<String>) -> Seq<Seq<char>> {
    list.map_values(|name: String| name@)
}

/// The templates that the service renders, and so needs: the pages for
/// login, registration, home, re-authentication, the form post response,
/// and errors.
pub open spec fn needed() -> Seq<Seq<char>> {
    seq![
        "login.html"@,
        "register.html"@,
        "index.html"@,
        "reauth.html"@,
        "form_post.html"@,
        "error.html"@,
    ]
}

/// The names of the templates that the service needs.
pub fn needed_templates() -> (list: Vec<String>)
    ensures
        names(list@) == needed(),
{
    let mut list: Vec<String> = Vec::new();
    list.push("login.html".to_owned());
    list.push("register.html".to_owned());
    list.push("index.html".to_owned());
    list.push("reauth.html".to_owned());
    list.push("form_post.html".to_owned());
    list.push("error.html".to_owned());
    assert(names(list@) =~= needed());
    list
}

/// The templates that are shipped besides the needed ones: the layout that
/// the pages extend.
pub fn extra_templates() -> (list: Vec<String>)
    ensures
        names(list@) == seq!["base.html"@],
{
    let mut list: Vec<String> = Vec::new();
    list.push("base.html".to_owned());
    assert(names(list@) =~= seq!["base.html"@]);
    list
}

/// The pattern of the template files below the directory `path`: every
/// `.html` and `.txt` file, however deep.
pub fn template_glob(path: &str) -> (pattern: String)
    ensures
        pattern@ == path@ + "/**/*.{html,txt}"@,
{
    path.to_owned().concat("/**/*.{html,txt}")
}

/// Whether `name` is among `list`.
pub fn is_listed(list: &Vec<String>, name: &String) -> (r: bool)
    ensures
        r == names(list@).contains(name@),
{
    let mut i: usize = 0;
    while i < list.len()
        invariant
            i <= list.len(),
            forall|k: int| 0 <= k < i ==> (#[trigger] names(list@)[k]) != name@,
        decreases list.len() - i,
    {
        if list[i] == *name {
            assert(names(list@)[i as int] == name@);
            return true;
        }
        i = i + 1;
    }
    false
}

/// The names among `needed` that are not among `loaded`, in the order of
/// `needed`.
pub open spec fn missing(needed: Seq<Seq<char>>, loaded: Seq<Seq<char>>) -> Seq<Seq<char>> {
    needed.filter(|name: Seq<char>| !loaded.contains(name))
}

/// The needed templates that were not loaded.
pub fn missing_templates(needed: &Vec<String>, loaded: &Vec<String>) -> (list: Vec<String>)
    ensures
        names(list@) == missing(names(needed@), names(loaded@)),
{
    let ghost all = names(needed@);
    let ghost absent = |name: Seq<char>| !names(loaded@).contains(name);
    let mut list: Vec<String> = Vec::new();
    let mut i: usize = 0;
    proof {
        reveal(Seq::filter);
        assert(all.take(0) =~= Seq::empty());
        assert(names(list@) =~= all.take(0).filter(absent));
    }
    while i < needed.len()
        invariant
            i <= needed.len(),
            all == names(needed@),
            absent == (|name: Seq<char>| !names(loaded@).contains(name)),
            names(list@) == all.take(i as int).filter(absent),
        decreases needed.len() - i,
    {
        proof {
            reveal(Seq::filter);
            assert(all.take(i + 1).drop_last() =~= all.take(i as int));
        }
        let ghost before = names(list@);
        if !is_listed(loaded, &needed[i]) {
            list.push(needed[i].clone());
            assert(names(list@) =~= before.push(all[i as int]));
        }
        i = i + 1;
    }
    assert(all.take(i as int) =~= all);
    list
}

/// Some needed templates were not loaded.
pub struct MissingTemplates {
    /// The needed templates that were not loaded.
    pub missing: Vec<String>,
    /// The templates that were loaded.
    pub loaded: Vec<String>,
}

/// Checks that every needed template is among the loaded ones. If not, says
/// which are missing, and what was loaded.
pub fn check_loaded(needed: &Vec<String>, loaded: Vec<String>) -> (r: Result<(), MissingTemplates>)
    ensures
        r is Ok <==> missing(names(needed@), names(loaded@)).len() == 0,
        r is Ok <==> forall|i: int|
            0 <= i < needed.len() ==> names(loaded@).contains(#[trigger] names(needed@)[i]),
        match r {
            Ok(_) => true,
            Err(e) => names(e.missing@) == missing(names(needed@), names(loaded@)) && e.loaded
                == loaded,
        },
{
    let list = missing_templates(needed, &loaded);
    proof {
        let all = names(needed@);
        let absent = |name: Seq<char>| !names(loaded@).contains(name);
        if all.filter(absent).len() == 0 {
            assert forall|i: int| 0 <= i < all.len() implies names(loaded@).contains(
                #[trigger] all[i],
            ) by {
                if absent(all[i]) {
                    all.lemma_filter_contains(absent, i);
                }
            }
        } else {
            all.lemma_filter_pred(absent, 0);
            all.lemma_filter_contains_rev(absent, all.filter(absent)[0]);
        }
    }
    if list.len() == 0 {
        Ok(())
    } else {
        Err(MissingTemplates { missing: list, loaded })
    }
}

/// How a template file is opened for writing.
#[derive(Clone, Copy, Debug, PartialEq, Eq, Structural)]
pub struct WriteOptions {
    pub write: bool,
    pub create: bool,
    pub truncate: bool,
    pub create_new: bool,
}

/// How the files are opened when the built-in templates are saved: to
/// overwrite, a file is created or emptied; else it must not exist yet, so
/// that nothing is overwritten.
pub fn write_options(overwrite: bool) -> (options: WriteOptions)
    ensures
        options.write,
        options.create == overwrite,
        options.truncate == overwrite,
        options.create_new == !overwrite,
{
    if overwrite {
        WriteOptions { write: true, create: true, truncate: true, create_new: false }
    } else {
        WriteOptions { write: true, create: false, truncate: false, create_new: true }
    }
}

} // verus!
