//! The bodies the service sends, parsed into the records of
//! [`crate::samson`].
//!
//! Each body is an object whose members may come in any order; members
//! the schema does not know are skipped, a member that appears twice is
//! rejected, and a required member that is absent makes the whole body
//! ill-formed. The specification functions define the accepted bodies
//! member by member, with range tests that only bound the recursion
//! for the termination check; the executable parsers are proved to
//! return exactly what the definitions say.

use vstd::prelude::*;

use crate::chars::{chars_eq_str, chars_to_string};
use crate::json::{
    lemma_sp_string_rest, lemma_sp_value_end, parse_i32_x, parse_string_rest_x, skip_value_x,
    skip_ws, skip_ws_x, sp_i32, sp_string_rest, sp_value_end, str_model,
};
use crate::samson::{Error, Project, ProjectModel, RemoteErrorModel, Stage, StageModel};

verus! {

/// The member name of a project's identifier.
pub open spec fn key_id() -> Seq<char> {
    seq!['i', 'd']
}

/// The member name of a display name.
pub open spec fn key_name() -> Seq<char> {
    seq!['n', 'a', 'm', 'e']
}

/// The member name of a project's last deployment time.
pub open spec fn key_last_deployed_at() -> Seq<char> {
    seq!['l', 'a', 's', 't', '_', 'd', 'e', 'p', 'l', 'o', 'y', 'e', 'd', '_', 'a', 't']
}

/// The member name of a project's last deployer.
pub open spec fn key_last_deployed_by() -> Seq<char> {
    seq!['l', 'a', 's', 't', '_', 'd', 'e', 'p', 'l', 'o', 'y', 'e', 'd', '_', 'b', 'y']
}

/// The envelope member that holds the list of projects.
pub open spec fn key_projects() -> Seq<char> {
    seq!['p', 'r', 'o', 'j', 'e', 'c', 't', 's']
}

/// The envelope member that holds the list of stages.
pub open spec fn key_stages() -> Seq<char> {
    seq!['s', 't', 'a', 'g', 'e', 's']
}

/// The member name of an error record's status.
pub open spec fn key_status() -> Seq<char> {
    seq!['s', 't', 'a', 't', 'u', 's']
}

/// The member name of an error record's message.
pub open spec fn key_error() -> Seq<char> {
    seq!['e', 'r', 'r', 'o', 'r']
}

/// The member name of a deployment confirmation's summary.
pub open spec fn key_summary() -> Seq<char> {
    seq!['s', 'u', 'm', 'm', 'a', 'r', 'y']
}

/// A string member: an opening quote, then the rest of a string.
pub open spec fn sp_field_string(s: Seq<char>, i: int) -> Option<(Seq<char>, int)> {
    if 0 <= i < s.len() && s[i] == '"' {
        sp_string_rest(s, i + 1)
    } else {
        None
    }
}

/// The fields of a project collected so far.
pub struct ProjectAcc {
    pub id: Option<int>,
    pub name: Option<Seq<char>>,
    pub last_deployed_at: Option<Seq<char>>,
    pub last_deployed_by: Option<Seq<char>>,
}

/// No project field seen yet.
pub open spec fn project_acc_empty() -> ProjectAcc {
    ProjectAcc { id: None, name: None, last_deployed_at: None, last_deployed_by: None }
}

/// One member value of a project object: a known key takes its typed
/// value and may appear only once; an unknown key's value is skipped.
pub open spec fn sp_project_field_value(s: Seq<char>, i: int, acc: ProjectAcc, key: Seq<char>)
    -> Option<(ProjectAcc, int)> {
    if key == key_id() {
        if acc.id is Some {
            None
        } else {
            match sp_i32(s, i) {
                Some((v, e)) => Some((ProjectAcc { id: Some(v), ..acc }, e)),
                None => None,
            }
        }
    } else if key == key_name() {
        if acc.name is Some {
            None
        } else {
            match sp_field_string(s, i) {
                Some((t, e)) => Some((ProjectAcc { name: Some(t), ..acc }, e)),
                None => None,
            }
        }
    } else if key == key_last_deployed_at() {
        if acc.last_deployed_at is Some {
            None
        } else {
            match sp_field_string(s, i) {
                Some((t, e)) => Some((ProjectAcc { last_deployed_at: Some(t), ..acc }, e)),
                None => None,
            }
        }
    } else if key == key_last_deployed_by() {
        if acc.last_deployed_by is Some {
            None
        } else {
            match sp_field_string(s, i) {
                Some((t, e)) => Some((ProjectAcc { last_deployed_by: Some(t), ..acc }, e)),
                None => None,
            }
        }
    } else {
        match sp_value_end(s, i) {
            Some(e) => Some((acc, e)),
            None => None,
        }
    }
}

/// The members of a project object from the first key on, the closing
/// brace included.
pub open spec fn sp_project_fields(s: Seq<char>, i: int, acc: ProjectAcc) -> Option<(
    ProjectAcc,
    int,
)>
    decreases s.len() - i,
{
    if !(0 <= i < s.len()) || s[i] != '"' {
        None
    } else {
        match sp_string_rest(s, i + 1) {
            None => None,
            Some((key, j)) => if !(i < j <= s.len()) {
                None
            } else {
                let j2 = skip_ws(s, j);
                if !(j <= j2) {
                    None
                } else if j2 < s.len() && s[j2] == ':' {
                    let j3 = skip_ws(s, j2 + 1);
                    if !(j2 + 1 <= j3 <= s.len()) {
                        None
                    } else {
                        match sp_project_field_value(s, j3, acc, key) {
                            None => None,
                            Some((acc2, e)) => if !(j3 < e <= s.len()) {
                                None
                            } else {
                                let j4 = skip_ws(s, e);
                                if !(e <= j4) {
                                    None
                                } else if j4 < s.len() && s[j4] == '}' {
                                    Some((acc2, j4 + 1))
                                } else if j4 < s.len() && s[j4] == ',' {
                                    let k = skip_ws(s, j4 + 1);
                                    if j4 + 1 <= k <= s.len() {
                                        sp_project_fields(s, k, acc2)
                                    } else {
                                        None
                                    }
                                } else {
                                    None
                                }
                            },
                        }
                    }
                } else {
                    None
                }
            },
        }
    }
}

/// One project object, all four fields required.
pub open spec fn sp_project(s: Seq<char>, i: int) -> Option<(ProjectModel, int)> {
    if !(0 <= i < s.len()) || s[i] != '{' {
        None
    } else {
        let j = skip_ws(s, i + 1);
        if !(i + 1 <= j <= s.len()) {
            None
        } else if j < s.len() && s[j] == '}' {
            None
        } else {
            match sp_project_fields(s, j, project_acc_empty()) {
                None => None,
                Some((acc, e)) => match (acc.id, acc.name, acc.last_deployed_at,
                acc.last_deployed_by) {
                    (Some(id), Some(n), Some(a), Some(b)) => Some(
                        (
                            ProjectModel {
                                id: id,
                                name: n,
                                last_deployed_at: a,
                                last_deployed_by: b,
                            },
                            e,
                        ),
                    ),
                    _ => None,
                },
            }
        }
    }
}

pub proof fn lemma_sp_project_fields(s: Seq<char>, i: int, acc: ProjectAcc)
    ensures
        sp_project_fields(s, i, acc) matches Some(r) ==> i < r.1 <= s.len(),
    decreases s.len() - i,
{
    if 0 <= i < s.len() && s[i] == '"' {
        match sp_string_rest(s, i + 1) {
            None => {},
            Some((key, j)) => if i < j <= s.len() {
                let j2 = skip_ws(s, j);
                if j <= j2 && j2 < s.len() && s[j2] == ':' {
                    let j3 = skip_ws(s, j2 + 1);
                    if j2 + 1 <= j3 <= s.len() {
                        match sp_project_field_value(s, j3, acc, key) {
                            None => {},
                            Some((acc2, e)) => if j3 < e <= s.len() {
                                let j4 = skip_ws(s, e);
                                if e <= j4 && j4 < s.len() && s[j4] == ',' {
                                    let k = skip_ws(s, j4 + 1);
                                    if j4 + 1 <= k <= s.len() {
                                        lemma_sp_project_fields(s, k, acc2);
                                    }
                                }
                            },
                        }
                    }
                }
            },
        }
    }
}

pub proof fn lemma_sp_project(s: Seq<char>, i: int)
    ensures
        sp_project(s, i) matches Some(r) ==> i < r.1 <= s.len(),
{
    if 0 <= i < s.len() && s[i] == '{' {
        let j = skip_ws(s, i + 1);
        if i + 1 <= j <= s.len() {
            lemma_sp_project_fields(s, j, project_acc_empty());
        }
    }
}

/// The elements of a non-empty array of projects, the closing bracket
/// included.
pub open spec fn sp_projects_elems(s: Seq<char>, i: int, acc: Seq<ProjectModel>) -> Option<(
    Seq<ProjectModel>,
    int,
)>
    decreases s.len() - i,
{
    if !(0 <= i <= s.len()) {
        None
    } else {
        match sp_project(s, i) {
            None => None,
            Some((p, e)) => if !(i < e <= s.len()) {
                None
            } else {
                let j = skip_ws(s, e);
                if !(e <= j) {
                    None
                } else if j < s.len() && s[j] == ']' {
                    Some((acc.push(p), j + 1))
                } else if j < s.len() && s[j] == ',' {
                    let k = skip_ws(s, j + 1);
                    if j + 1 <= k <= s.len() {
                        sp_projects_elems(s, k, acc.push(p))
                    } else {
                        None
                    }
                } else {
                    None
                }
            },
        }
    }
}

/// An array of projects.
pub open spec fn sp_projects_arr(s: Seq<char>, i: int) -> Option<(Seq<ProjectModel>, int)> {
    if !(0 <= i < s.len()) || s[i] != '[' {
        None
    } else {
        let j = skip_ws(s, i + 1);
        if !(i + 1 <= j <= s.len()) {
            None
        } else if j < s.len() && s[j] == ']' {
            Some((Seq::empty(), j + 1))
        } else {
            sp_projects_elems(s, j, Seq::empty())
        }
    }
}

pub proof fn lemma_sp_projects_elems(s: Seq<char>, i: int, acc: Seq<ProjectModel>)
    ensures
        sp_projects_elems(s, i, acc) matches Some(r) ==> i < r.1 <= s.len(),
    decreases s.len() - i,
{
    if 0 <= i <= s.len() {
        match sp_project(s, i) {
            None => {},
            Some((p, e)) => if i < e <= s.len() {
                let j = skip_ws(s, e);
                if e <= j && j < s.len() && s[j] == ',' {
                    let k = skip_ws(s, j + 1);
                    if j + 1 <= k <= s.len() {
                        lemma_sp_projects_elems(s, k, acc.push(p));
                    }
                }
            },
        }
    }
}

pub proof fn lemma_sp_projects_arr(s: Seq<char>, i: int)
    ensures
        sp_projects_arr(s, i) matches Some(r) ==> i < r.1 <= s.len(),
{
    if 0 <= i < s.len() && s[i] == '[' {
        let j = skip_ws(s, i + 1);
        if i + 1 <= j <= s.len() {
            lemma_sp_projects_elems(s, j, Seq::empty());
        }
    }
}

/// The members of the projects envelope from the first key on: the one
/// known member holds the array of projects and may appear only once;
/// all others are skipped.
pub open spec fn sp_projects_members(s: Seq<char>, i: int, acc: Option<Seq<ProjectModel>>)
    -> Option<(Option<Seq<ProjectModel>>, int)>
    decreases s.len() - i,
{
    if !(0 <= i < s.len()) || s[i] != '"' {
        None
    } else {
        match sp_string_rest(s, i + 1) {
            None => None,
            Some((key, j)) => if !(i < j <= s.len()) {
                None
            } else {
                let j2 = skip_ws(s, j);
                if !(j <= j2) {
                    None
                } else if j2 < s.len() && s[j2] == ':' {
                    let j3 = skip_ws(s, j2 + 1);
                    if !(j2 + 1 <= j3 <= s.len()) {
                        None
                    } else {
                        let after = if key == key_projects() {
                            if acc is Some {
                                None
                            } else {
                                match sp_projects_arr(s, j3) {
                                    Some((ps, e)) => Some((Some(ps), e)),
                                    None => None,
                                }
                            }
                        } else {
                            match sp_value_end(s, j3) {
                                Some(e) => Some((acc, e)),
                                None => None,
                            }
                        };
                        match after {
                            None => None,
                            Some((acc2, e)) => if !(j3 < e <= s.len()) {
                                None
                            } else {
                                let j4 = skip_ws(s, e);
                                if !(e <= j4) {
                                    None
                                } else if j4 < s.len() && s[j4] == '}' {
                                    Some((acc2, j4 + 1))
                                } else if j4 < s.len() && s[j4] == ',' {
                                    let k = skip_ws(s, j4 + 1);
                                    if j4 + 1 <= k <= s.len() {
                                        sp_projects_members(s, k, acc2)
                                    } else {
                                        None
                                    }
                                } else {
                                    None
                                }
                            },
                        }
                    }
                } else {
                    None
                }
            },
        }
    }
}

/// A whole projects body: an object whose `projects` member holds the
/// list; nothing may follow it but whitespace.
pub open spec fn sp_projects_body(s: Seq<char>) -> Option<Seq<ProjectModel>> {
    let i = skip_ws(s, 0);
    if 0 <= i < s.len() && s[i] == '{' {
        let j = skip_ws(s, i + 1);
        if !(i + 1 <= j <= s.len()) {
            None
        } else if j < s.len() && s[j] == '}' {
            None
        } else {
            match sp_projects_members(s, j, None) {
                Some((Some(ps), e)) => if 0 <= e <= s.len() && skip_ws(s, e) == s.len() {
                    Some(ps)
                } else {
                    None
                },
                _ => None,
            }
        }
    } else {
        None
    }
}

pub proof fn lemma_sp_field_string(s: Seq<char>, i: int)
    ensures
        sp_field_string(s, i) matches Some(r) ==> i < r.1 <= s.len(),
{
    if 0 <= i < s.len() && s[i] == '"' {
        lemma_sp_string_rest(s, i + 1);
    }
}

pub proof fn lemma_sp_project_field_value(s: Seq<char>, i: int, acc: ProjectAcc, key: Seq<char>)
    requires
        0 <= i <= s.len(),
    ensures
        sp_project_field_value(s, i, acc, key) matches Some(r) ==> i < r.1 <= s.len(),
{
    crate::json::lemma_sp_i32(s, i);
    lemma_sp_field_string(s, i);
    lemma_sp_value_end(s, i);
}

/// The fields of a project collected so far, as the parser holds them.
pub struct ProjectFields {
    pub id: Option<i32>,
    pub name: Option<Vec<char>>,
    pub last_deployed_at: Option<Vec<char>>,
    pub last_deployed_by: Option<Vec<char>>,
}

/// The model of optional string content.
pub open spec fn opt_chars_model(o: Option<Vec<char>>) -> Option<Seq<char>> {
    match o {
        Some(v) => Some(v@),
        None => None,
    }
}

/// The model of the fields collected so far.
pub open spec fn project_fields_model(a: ProjectFields) -> ProjectAcc {
    ProjectAcc {
        id: match a.id {
            Some(v) => Some(v as int),
            None => None,
        },
        name: opt_chars_model(a.name),
        last_deployed_at: opt_chars_model(a.last_deployed_at),
        last_deployed_by: opt_chars_model(a.last_deployed_by),
    }
}

/// The model of a partial parse of a project's fields.
pub open spec fn fields_step_model(r: Option<(ProjectFields, usize)>) -> Option<(
    ProjectAcc,
    int,
)> {
    match r {
        Some(p) => Some((project_fields_model(p.0), p.1 as int)),
        None => None,
    }
}

/// The model of a parse that yields a project.
pub open spec fn project_step_model(r: Option<(Project, usize)>) -> Option<(ProjectModel, int)> {
    match r {
        Some(p) => Some((p.0@, p.1 as int)),
        None => None,
    }
}

/// Parses a string member value.
fn parse_field_string_x(s: &Vec<char>, i: usize) -> (r: Option<(Vec<char>, usize)>)
    requires
        i <= s@.len(),
    ensures
        str_model(r) == sp_field_string(s@, i as int),
{
    if i < s.len() && s[i] == '"' {
        parse_string_rest_x(s, i + 1)
    } else {
        None
    }
}

/// Parses the members of a project object from the first key on.
fn parse_project_fields_x(s: &Vec<char>, i: usize, acc: ProjectFields) -> (r: Option<(
    ProjectFields,
    usize,
)>)
    requires
        i <= s@.len(),
    ensures
        fields_step_model(r) == sp_project_fields(s@, i as int, project_fields_model(acc)),
    decreases s@.len() - i,
{
    proof {
        reveal_strlit("id");
        reveal_strlit("name");
        reveal_strlit("last_deployed_at");
        reveal_strlit("last_deployed_by");
        assert("id"@ =~= key_id());
        assert("name"@ =~= key_name());
        assert("last_deployed_at"@ =~= key_last_deployed_at());
        assert("last_deployed_by"@ =~= key_last_deployed_by());
    }
    if i >= s.len() || s[i] != '"' {
        return None;
    }
    match parse_string_rest_x(s, i + 1) {
        None => None,
        Some((key, j)) => {
            proof {
                lemma_sp_string_rest(s@, i as int + 1);
            }
            let j2 = skip_ws_x(s, j);
            if j2 < s.len() && s[j2] == ':' {
                let j3 = skip_ws_x(s, j2 + 1);
                let ghost acc_m = project_fields_model(acc);
                let after: Option<(ProjectFields, usize)> = if chars_eq_str(&key, "id") {
                    if acc.id.is_some() {
                        None
                    } else {
                        match parse_i32_x(s, j3) {
                            Some((v, e)) => Some((ProjectFields { id: Some(v), ..acc }, e)),
                            None => None,
                        }
                    }
                } else if chars_eq_str(&key, "name") {
                    if acc.name.is_some() {
                        None
                    } else {
                        match parse_field_string_x(s, j3) {
                            Some((t, e)) => Some((ProjectFields { name: Some(t), ..acc }, e)),
                            None => None,
                        }
                    }
                } else if chars_eq_str(&key, "last_deployed_at") {
                    if acc.last_deployed_at.is_some() {
                        None
                    } else {
                        match parse_field_string_x(s, j3) {
                            Some((t, e)) => Some(
                                (ProjectFields { last_deployed_at: Some(t), ..acc }, e),
                            ),
                            None => None,
                        }
                    }
                } else if chars_eq_str(&key, "last_deployed_by") {
                    if acc.last_deployed_by.is_some() {
                        None
                    } else {
                        match parse_field_string_x(s, j3) {
                            Some((t, e)) => Some(
                                (ProjectFields { last_deployed_by: Some(t), ..acc }, e),
                            ),
                            None => None,
                        }
                    }
                } else {
                    match skip_value_x(s, j3) {
                        Some(e) => Some((acc, e)),
                        None => None,
                    }
                };
                proof {
                    assert(fields_step_model(after) == sp_project_field_value(
                        s@,
                        j3 as int,
                        acc_m,
                        key@,
                    ));
                }
                match after {
                    None => None,
                    Some((acc2, e)) => {
                        proof {
                            lemma_sp_project_field_value(s@, j3 as int, acc_m, key@);
                        }
                        let j4 = skip_ws_x(s, e);
                        if j4 < s.len() && s[j4] == '}' {
                            Some((acc2, j4 + 1))
                        } else if j4 < s.len() && s[j4] == ',' {
                            let k = skip_ws_x(s, j4 + 1);
                            parse_project_fields_x(s, k, acc2)
                        } else {
                            None
                        }
                    },
                }
            } else {
                None
            }
        },
    }
}

/// Parses one project object.
pub fn parse_project_x(s: &Vec<char>, i: usize) -> (r: Option<(Project, usize)>)
    requires
        i <= s@.len(),
    ensures
        project_step_model(r) == sp_project(s@, i as int),
{
    if i >= s.len() || s[i] != '{' {
        return None;
    }
    let j = skip_ws_x(s, i + 1);
    if j < s.len() && s[j] == '}' {
        return None;
    }
    let empty = ProjectFields { id: None, name: None, last_deployed_at: None, last_deployed_by: None };
    proof {
        assert(project_fields_model(empty) == project_acc_empty());
    }
    match parse_project_fields_x(s, j, empty) {
        None => None,
        Some((acc, e)) => match (acc.id, acc.name, acc.last_deployed_at, acc.last_deployed_by) {
            (Some(id), Some(n), Some(a), Some(b)) => Some(
                (
                    Project {
                        id: id,
                        name: chars_to_string(&n),
                        last_deployed_at: chars_to_string(&a),
                        last_deployed_by: chars_to_string(&b),
                    },
                    e,
                ),
            ),
            _ => None,
        },
    }
}

/// The model of a parse that yields a list of projects.
pub open spec fn projects_step_model(r: Option<(Vec<Project>, usize)>) -> Option<(
    Seq<ProjectModel>,
    int,
)> {
    match r {
        Some(p) => Some((p.0.deep_view(), p.1 as int)),
        None => None,
    }
}

/// Parses the elements of a non-empty array of projects.
fn parse_projects_elems_x(s: &Vec<char>, i: usize, acc: Vec<Project>) -> (r: Option<(
    Vec<Project>,
    usize,
)>)
    requires
        i <= s@.len(),
    ensures
        projects_step_model(r) == sp_projects_elems(s@, i as int, acc.deep_view()),
    decreases s@.len() - i,
{
    let ghost acc_m = acc.deep_view();
    match parse_project_x(s, i) {
        None => None,
        Some((p, e)) => {
            proof {
                lemma_sp_project(s@, i as int);
            }
            let ghost p_m = p@;
            let mut acc2 = acc;
            acc2.push(p);
            proof {
                assert(acc2.deep_view() =~= acc_m.push(p_m));
            }
            let j = skip_ws_x(s, e);
            if j < s.len() && s[j] == ']' {
                Some((acc2, j + 1))
            } else if j < s.len() && s[j] == ',' {
                let k = skip_ws_x(s, j + 1);
                parse_projects_elems_x(s, k, acc2)
            } else {
                None
            }
        },
    }
}

/// Parses an array of projects.
fn parse_projects_arr_x(s: &Vec<char>, i: usize) -> (r: Option<(Vec<Project>, usize)>)
    requires
        i <= s@.len(),
    ensures
        projects_step_model(r) == sp_projects_arr(s@, i as int),
{
    if i >= s.len() || s[i] != '[' {
        return None;
    }
    let j = skip_ws_x(s, i + 1);
    if j < s.len() && s[j] == ']' {
        let empty: Vec<Project> = Vec::new();
        proof {
            assert(empty.deep_view() =~= Seq::<ProjectModel>::empty());
        }
        Some((empty, j + 1))
    } else {
        let empty: Vec<Project> = Vec::new();
        proof {
            assert(empty.deep_view() =~= Seq::<ProjectModel>::empty());
        }
        parse_projects_elems_x(s, j, empty)
    }
}

/// The model of a parse that may have found the projects member.
pub open spec fn opt_projects_model(o: Option<Vec<Project>>) -> Option<Seq<ProjectModel>> {
    match o {
        Some(v) => Some(v.deep_view()),
        None => None,
    }
}

/// The model of a partial parse of the projects envelope.
pub open spec fn projects_members_model(r: Option<(Option<Vec<Project>>, usize)>) -> Option<(
    Option<Seq<ProjectModel>>,
    int,
)> {
    match r {
        Some(p) => Some((opt_projects_model(p.0), p.1 as int)),
        None => None,
    }
}

/// Parses the members of the projects envelope from the first key on.
fn parse_projects_members_x(s: &Vec<char>, i: usize, acc: Option<Vec<Project>>) -> (r: Option<(
    Option<Vec<Project>>,
    usize,
)>)
    requires
        i <= s@.len(),
    ensures
        projects_members_model(r) == sp_projects_members(s@, i as int, opt_projects_model(acc)),
    decreases s@.len() - i,
{
    proof {
        reveal_strlit("projects");
        assert("projects"@ =~= key_projects());
    }
    if i >= s.len() || s[i] != '"' {
        return None;
    }
    match parse_string_rest_x(s, i + 1) {
        None => None,
        Some((key, j)) => {
            proof {
                lemma_sp_string_rest(s@, i as int + 1);
            }
            let j2 = skip_ws_x(s, j);
            if j2 < s.len() && s[j2] == ':' {
                let j3 = skip_ws_x(s, j2 + 1);
                let ghost acc_m = opt_projects_model(acc);
                let after: Option<(Option<Vec<Project>>, usize)> = if chars_eq_str(
                    &key,
                    "projects",
                ) {
                    if acc.is_some() {
                        None
                    } else {
                        match parse_projects_arr_x(s, j3) {
                            Some((ps, e)) => Some((Some(ps), e)),
                            None => None,
                        }
                    }
                } else {
                    match skip_value_x(s, j3) {
                        Some(e) => Some((acc, e)),
                        None => None,
                    }
                };
                match after {
                    None => None,
                    Some((acc2, e)) => {
                        proof {
                            lemma_sp_projects_arr(s@, j3 as int);
                            lemma_sp_value_end(s@, j3 as int);
                        }
                        let j4 = skip_ws_x(s, e);
                        if j4 < s.len() && s[j4] == '}' {
                            Some((acc2, j4 + 1))
                        } else if j4 < s.len() && s[j4] == ',' {
                            let k = skip_ws_x(s, j4 + 1);
                            parse_projects_members_x(s, k, acc2)
                        } else {
                            None
                        }
                    },
                }
            } else {
                None
            }
        },
    }
}

pub proof fn lemma_sp_projects_members(s: Seq<char>, i: int, acc: Option<Seq<ProjectModel>>)
    ensures
        sp_projects_members(s, i, acc) matches Some(r) ==> i < r.1 <= s.len(),
    decreases s.len() - i,
{
    if 0 <= i < s.len() && s[i] == '"' {
        match sp_string_rest(s, i + 1) {
            None => {},
            Some((key, j)) => if i < j <= s.len() {
                let j2 = skip_ws(s, j);
                if j <= j2 && j2 < s.len() && s[j2] == ':' {
                    let j3 = skip_ws(s, j2 + 1);
                    if j2 + 1 <= j3 <= s.len() {
                        let after = if key == key_projects() {
                            if acc is Some {
                                None
                            } else {
                                match sp_projects_arr(s, j3) {
                                    Some((ps, e)) => Some((Some(ps), e)),
                                    None => None,
                                }
                            }
                        } else {
                            match sp_value_end(s, j3) {
                                Some(e) => Some((acc, e)),
                                None => None,
                            }
                        };
                        match after {
                            None => {},
                            Some((acc2, e)) => if j3 < e <= s.len() {
                                let j4 = skip_ws(s, e);
                                if e <= j4 && j4 < s.len() && s[j4] == ',' {
                                    let k = skip_ws(s, j4 + 1);
                                    if j4 + 1 <= k <= s.len() {
                                        lemma_sp_projects_members(s, k, acc2);
                                    }
                                }
                            },
                        }
                    }
                }
            },
        }
    }
}

/// Parses a whole projects body.
pub fn parse_projects_body_x(s: &Vec<char>) -> (r: Option<Vec<Project>>)
    ensures
        opt_projects_model(r) == sp_projects_body(s@),
{
    let i = skip_ws_x(s, 0);
    if i < s.len() && s[i] == '{' {
        let j = skip_ws_x(s, i + 1);
        if j < s.len() && s[j] == '}' {
            return None;
        }
        match parse_projects_members_x(s, j, None) {
            Some((Some(ps), e)) => {
                proof {
                    lemma_sp_projects_members(s@, j as int, None);
                }
                let t = skip_ws_x(s, e);
                if t == s.len() {
                    Some(ps)
                } else {
                    None
                }
            },
            _ => None,
        }
    } else {
        None
    }
}

/// The fields of a stage collected so far.
pub struct StageAcc {
    pub id: Option<int>,
    pub name: Option<Seq<char>>,
}

/// No stage field seen yet.
pub open spec fn stage_acc_empty() -> StageAcc {
    StageAcc { id: None, name: None }
}

/// One member value of a stage object.
pub open spec fn sp_stage_field_value(s: Seq<char>, i: int, acc: StageAcc, key: Seq<char>)
    -> Option<(StageAcc, int)> {
    if key == key_id() {
        if acc.id is Some {
            None
        } else {
            match sp_i32(s, i) {
                Some((v, e)) => Some((StageAcc { id: Some(v), ..acc }, e)),
                None => None,
            }
        }
    } else if key == key_name() {
        if acc.name is Some {
            None
        } else {
            match sp_field_string(s, i) {
                Some((t, e)) => Some((StageAcc { name: Some(t), ..acc }, e)),
                None => None,
            }
        }
    } else {
        match sp_value_end(s, i) {
            Some(e) => Some((acc, e)),
            None => None,
        }
    }
}

pub proof fn lemma_sp_stage_field_value(s: Seq<char>, i: int, acc: StageAcc, key: Seq<char>)
    requires
        0 <= i <= s.len(),
    ensures
        sp_stage_field_value(s, i, acc, key) matches Some(r) ==> i < r.1 <= s.len(),
{
    crate::json::lemma_sp_i32(s, i);
    lemma_sp_field_string(s, i);
    lemma_sp_value_end(s, i);
}

/// The members of a stage object from the first key on, the closing
/// brace included.
pub open spec fn sp_stage_fields(s: Seq<char>, i: int, acc: StageAcc) -> Option<(StageAcc, int)>
    decreases s.len() - i,
{
    if !(0 <= i < s.len()) || s[i] != '"' {
        None
    } else {
        match sp_string_rest(s, i + 1) {
            None => None,
            Some((key, j)) => if !(i < j <= s.len()) {
                None
            } else {
                let j2 = skip_ws(s, j);
                if !(j <= j2) {
                    None
                } else if j2 < s.len() && s[j2] == ':' {
                    let j3 = skip_ws(s, j2 + 1);
                    if !(j2 + 1 <= j3 <= s.len()) {
                        None
                    } else {
                        match sp_stage_field_value(s, j3, acc, key) {
                            None => None,
                            Some((acc2, e)) => if !(j3 < e <= s.len()) {
                                None
                            } else {
                                let j4 = skip_ws(s, e);
                                if !(e <= j4) {
                                    None
                                } else if j4 < s.len() && s[j4] == '}' {
                                    Some((acc2, j4 + 1))
                                } else if j4 < s.len() && s[j4] == ',' {
                                    let k = skip_ws(s, j4 + 1);
                                    if j4 + 1 <= k <= s.len() {
                                        sp_stage_fields(s, k, acc2)
                                    } else {
                                        None
                                    }
                                } else {
                                    None
                                }
                            },
                        }
                    }
                } else {
                    None
                }
            },
        }
    }
}

/// One stage object, both fields required.
pub open spec fn sp_stage(s: Seq<char>, i: int) -> Option<(StageModel, int)> {
    if !(0 <= i < s.len()) || s[i] != '{' {
        None
    } else {
        let j = skip_ws(s, i + 1);
        if !(i + 1 <= j <= s.len()) {
            None
        } else if j < s.len() && s[j] == '}' {
            None
        } else {
            match sp_stage_fields(s, j, stage_acc_empty()) {
                None => None,
                Some((acc, e)) => match (acc.id, acc.name) {
                    (Some(id), Some(n)) => Some((StageModel { id: id, name: n }, e)),
                    _ => None,
                },
            }
        }
    }
}

pub proof fn lemma_sp_stage_fields(s: Seq<char>, i: int, acc: StageAcc)
    ensures
        sp_stage_fields(s, i, acc) matches Some(r) ==> i < r.1 <= s.len(),
    decreases s.len() - i,
{
    if 0 <= i < s.len() && s[i] == '"' {
        match sp_string_rest(s, i + 1) {
            None => {},
            Some((key, j)) => if i < j <= s.len() {
                let j2 = skip_ws(s, j);
                if j <= j2 && j2 < s.len() && s[j2] == ':' {
                    let j3 = skip_ws(s, j2 + 1);
                    if j2 + 1 <= j3 <= s.len() {
                        match sp_stage_field_value(s, j3, acc, key) {
                            None => {},
                            Some((acc2, e)) => if j3 < e <= s.len() {
                                let j4 = skip_ws(s, e);
                                if e <= j4 && j4 < s.len() && s[j4] == ',' {
                                    let k = skip_ws(s, j4 + 1);
                                    if j4 + 1 <= k <= s.len() {
                                        lemma_sp_stage_fields(s, k, acc2);
                                    }
                                }
                            },
                        }
                    }
                }
            },
        }
    }
}

pub proof fn lemma_sp_stage(s: Seq<char>, i: int)
    ensures
        sp_stage(s, i) matches Some(r) ==> i < r.1 <= s.len(),
{
    if 0 <= i < s.len() && s[i] == '{' {
        let j = skip_ws(s, i + 1);
        if i + 1 <= j <= s.len() {
            lemma_sp_stage_fields(s, j, stage_acc_empty());
        }
    }
}

/// The elements of a non-empty array of stages, the closing bracket
/// included.
pub open spec fn sp_stages_elems(s: Seq<char>, i: int, acc: Seq<StageModel>) -> Option<(
    Seq<StageModel>,
    int,
)>
    decreases s.len() - i,
{
    if !(0 <= i <= s.len()) {
        None
    } else {
        match sp_stage(s, i) {
            None => None,
            Some((p, e)) => if !(i < e <= s.len()) {
                None
            } else {
                let j = skip_ws(s, e);
                if !(e <= j) {
                    None
                } else if j < s.len() && s[j] == ']' {
                    Some((acc.push(p), j + 1))
                } else if j < s.len() && s[j] == ',' {
                    let k = skip_ws(s, j + 1);
                    if j + 1 <= k <= s.len() {
                        sp_stages_elems(s, k, acc.push(p))
                    } else {
                        None
                    }
                } else {
                    None
                }
            },
        }
    }
}

/// An array of stages.
pub open spec fn sp_stages_arr(s: Seq<char>, i: int) -> Option<(Seq<StageModel>, int)> {
    if !(0 <= i < s.len()) || s[i] != '[' {
        None
    } else {
        let j = skip_ws(s, i + 1);
        if !(i + 1 <= j <= s.len()) {
            None
        } else if j < s.len() && s[j] == ']' {
            Some((Seq::empty(), j + 1))
        } else {
            sp_stages_elems(s, j, Seq::empty())
        }
    }
}

pub proof fn lemma_sp_stages_elems(s: Seq<char>, i: int, acc: Seq<StageModel>)
    ensures
        sp_stages_elems(s, i, acc) matches Some(r) ==> i < r.1 <= s.len(),
    decreases s.len() - i,
{
    if 0 <= i <= s.len() {
        match sp_stage(s, i) {
            None => {},
            Some((p, e)) => if i < e <= s.len() {
                let j = skip_ws(s, e);
                if e <= j && j < s.len() && s[j] == ',' {
                    let k = skip_ws(s, j + 1);
                    if j + 1 <= k <= s.len() {
                        lemma_sp_stages_elems(s, k, acc.push(p));
                    }
                }
            },
        }
    }
}

pub proof fn lemma_sp_stages_arr(s: Seq<char>, i: int)
    ensures
        sp_stages_arr(s, i) matches Some(r) ==> i < r.1 <= s.len(),
{
    if 0 <= i < s.len() && s[i] == '[' {
        let j = skip_ws(s, i + 1);
        if i + 1 <= j <= s.len() {
            lemma_sp_stages_elems(s, j, Seq::empty());
        }
    }
}

/// The members of the stages envelope from the first key on.
pub open spec fn sp_stages_members(s: Seq<char>, i: int, acc: Option<Seq<StageModel>>) -> Option<
    (Option<Seq<StageModel>>, int),
>
    decreases s.len() - i,
{
    if !(0 <= i < s.len()) || s[i] != '"' {
        None
    } else {
        match sp_string_rest(s, i + 1) {
            None => None,
            Some((key, j)) => if !(i < j <= s.len()) {
                None
            } else {
                let j2 = skip_ws(s, j);
                if !(j <= j2) {
                    None
                } else if j2 < s.len() && s[j2] == ':' {
                    let j3 = skip_ws(s, j2 + 1);
                    if !(j2 + 1 <= j3 <= s.len()) {
                        None
                    } else {
                        let after = if key == key_stages() {
                            if acc is Some {
                                None
                            } else {
                                match sp_stages_arr(s, j3) {
                                    Some((ps, e)) => Some((Some(ps), e)),
                                    None => None,
                                }
                            }
                        } else {
                            match sp_value_end(s, j3) {
                                Some(e) => Some((acc, e)),
                                None => None,
                            }
                        };
                        match after {
                            None => None,
                            Some((acc2, e)) => if !(j3 < e <= s.len()) {
                                None
                            } else {
                                let j4 = skip_ws(s, e);
                                if !(e <= j4) {
                                    None
                                } else if j4 < s.len() && s[j4] == '}' {
                                    Some((acc2, j4 + 1))
                                } else if j4 < s.len() && s[j4] == ',' {
                                    let k = skip_ws(s, j4 + 1);
                                    if j4 + 1 <= k <= s.len() {
                                        sp_stages_members(s, k, acc2)
                                    } else {
                                        None
                                    }
                                } else {
                                    None
                                }
                            },
                        }
                    }
                } else {
                    None
                }
            },
        }
    }
}

pub proof fn lemma_sp_stages_members(s: Seq<char>, i: int, acc: Option<Seq<StageModel>>)
    ensures
        sp_stages_members(s, i, acc) matches Some(r) ==> i < r.1 <= s.len(),
    decreases s.len() - i,
{
    if 0 <= i < s.len() && s[i] == '"' {
        match sp_string_rest(s, i + 1) {
            None => {},
            Some((key, j)) => if i < j <= s.len() {
                let j2 = skip_ws(s, j);
                if j <= j2 && j2 < s.len() && s[j2] == ':' {
                    let j3 = skip_ws(s, j2 + 1);
                    if j2 + 1 <= j3 <= s.len() {
                        let after = if key == key_stages() {
                            if acc is Some {
                                None
                            } else {
                                match sp_stages_arr(s, j3) {
                                    Some((ps, e)) => Some((Some(ps), e)),
                                    None => None,
                                }
                            }
                        } else {
                            match sp_value_end(s, j3) {
                                Some(e) => Some((acc, e)),
                                None => None,
                            }
                        };
                        match after {
                            None => {},
                            Some((acc2, e)) => if j3 < e <= s.len() {
                                let j4 = skip_ws(s, e);
                                if e <= j4 && j4 < s.len() && s[j4] == ',' {
                                    let k = skip_ws(s, j4 + 1);
                                    if j4 + 1 <= k <= s.len() {
                                        lemma_sp_stages_members(s, k, acc2);
                                    }
                                }
                            },
                        }
                    }
                }
            },
        }
    }
}

/// A whole stages body: an object whose `stages` member holds the
/// list; nothing may follow it but whitespace.
pub open spec fn sp_stages_body(s: Seq<char>) -> Option<Seq<StageModel>> {
    let i = skip_ws(s, 0);
    if 0 <= i < s.len() && s[i] == '{' {
        let j = skip_ws(s, i + 1);
        if !(i + 1 <= j <= s.len()) {
            None
        } else if j < s.len() && s[j] == '}' {
            None
        } else {
            match sp_stages_members(s, j, None) {
                Some((Some(ps), e)) => if 0 <= e <= s.len() && skip_ws(s, e) == s.len() {
                    Some(ps)
                } else {
                    None
                },
                _ => None,
            }
        }
    } else {
        None
    }
}

/// The fields of a stage collected so far, as the parser holds them.
pub struct StageFields {
    pub id: Option<i32>,
    pub name: Option<Vec<char>>,
}

/// The model of the stage fields collected so far.
pub open spec fn stage_fields_model(a: StageFields) -> StageAcc {
    StageAcc {
        id: match a.id {
            Some(v) => Some(v as int),
            None => None,
        },
        name: opt_chars_model(a.name),
    }
}

/// The model of a partial parse of a stage's fields.
pub open spec fn stage_fields_step_model(r: Option<(StageFields, usize)>) -> Option<(
    StageAcc,
    int,
)> {
    match r {
        Some(p) => Some((stage_fields_model(p.0), p.1 as int)),
        None => None,
    }
}

/// The model of a parse that yields a stage.
pub open spec fn stage_step_model(r: Option<(Stage, usize)>) -> Option<(StageModel, int)> {
    match r {
        Some(p) => Some((p.0@, p.1 as int)),
        None => None,
    }
}

/// Parses the members of a stage object from the first key on.
fn parse_stage_fields_x(s: &Vec<char>, i: usize, acc: StageFields) -> (r: Option<(
    StageFields,
    usize,
)>)
    requires
        i <= s@.len(),
    ensures
        stage_fields_step_model(r) == sp_stage_fields(s@, i as int, stage_fields_model(acc)),
    decreases s@.len() - i,
{
    proof {
        reveal_strlit("id");
        reveal_strlit("name");
        assert("id"@ =~= key_id());
        assert("name"@ =~= key_name());
    }
    if i >= s.len() || s[i] != '"' {
        return None;
    }
    match parse_string_rest_x(s, i + 1) {
        None => None,
        Some((key, j)) => {
            proof {
                lemma_sp_string_rest(s@, i as int + 1);
            }
            let j2 = skip_ws_x(s, j);
            if j2 < s.len() && s[j2] == ':' {
                let j3 = skip_ws_x(s, j2 + 1);
                let ghost acc_m = stage_fields_model(acc);
                let after: Option<(StageFields, usize)> = if chars_eq_str(&key, "id") {
                    if acc.id.is_some() {
                        None
                    } else {
                        match parse_i32_x(s, j3) {
                            Some((v, e)) => Some((StageFields { id: Some(v), ..acc }, e)),
                            None => None,
                        }
                    }
                } else if chars_eq_str(&key, "name") {
                    if acc.name.is_some() {
                        None
                    } else {
                        match parse_field_string_x(s, j3) {
                            Some((t, e)) => Some((StageFields { name: Some(t), ..acc }, e)),
                            None => None,
                        }
                    }
                } else {
                    match skip_value_x(s, j3) {
                        Some(e) => Some((acc, e)),
                        None => None,
                    }
                };
                proof {
                    assert(stage_fields_step_model(after) == sp_stage_field_value(
                        s@,
                        j3 as int,
                        acc_m,
                        key@,
                    ));
                }
                match after {
                    None => None,
                    Some((acc2, e)) => {
                        proof {
                            lemma_sp_stage_field_value(s@, j3 as int, acc_m, key@);
                        }
                        let j4 = skip_ws_x(s, e);
                        if j4 < s.len() && s[j4] == '}' {
                            Some((acc2, j4 + 1))
                        } else if j4 < s.len() && s[j4] == ',' {
                            let k = skip_ws_x(s, j4 + 1);
                            parse_stage_fields_x(s, k, acc2)
                        } else {
                            None
                        }
                    },
                }
            } else {
                None
            }
        },
    }
}

/// Parses one stage object.
pub fn parse_stage_x(s: &Vec<char>, i: usize) -> (r: Option<(Stage, usize)>)
    requires
        i <= s@.len(),
    ensures
        stage_step_model(r) == sp_stage(s@, i as int),
{
    if i >= s.len() || s[i] != '{' {
        return None;
    }
    let j = skip_ws_x(s, i + 1);
    if j < s.len() && s[j] == '}' {
        return None;
    }
    let empty = StageFields { id: None, name: None };
    proof {
        assert(stage_fields_model(empty) == stage_acc_empty());
    }
    match parse_stage_fields_x(s, j, empty) {
        None => None,
        Some((acc, e)) => match (acc.id, acc.name) {
            (Some(id), Some(n)) => Some((Stage { id: id, name: chars_to_string(&n) }, e)),
            _ => None,
        },
    }
}

/// The model of a parse that yields a list of stages.
pub open spec fn stages_step_model(r: Option<(Vec<Stage>, usize)>) -> Option<(
    Seq<StageModel>,
    int,
)> {
    match r {
        Some(p) => Some((p.0.deep_view(), p.1 as int)),
        None => None,
    }
}

/// Parses the elements of a non-empty array of stages.
fn parse_stages_elems_x(s: &Vec<char>, i: usize, acc: Vec<Stage>) -> (r: Option<(
    Vec<Stage>,
    usize,
)>)
    requires
        i <= s@.len(),
    ensures
        stages_step_model(r) == sp_stages_elems(s@, i as int, acc.deep_view()),
    decreases s@.len() - i,
{
    let ghost acc_m = acc.deep_view();
    match parse_stage_x(s, i) {
        None => None,
        Some((p, e)) => {
            proof {
                lemma_sp_stage(s@, i as int);
            }
            let ghost p_m = p@;
            let mut acc2 = acc;
            acc2.push(p);
            proof {
                assert(acc2.deep_view() =~= acc_m.push(p_m));
            }
            let j = skip_ws_x(s, e);
            if j < s.len() && s[j] == ']' {
                Some((acc2, j + 1))
            } else if j < s.len() && s[j] == ',' {
                let k = skip_ws_x(s, j + 1);
                parse_stages_elems_x(s, k, acc2)
            } else {
                None
            }
        },
    }
}

/// Parses an array of stages.
fn parse_stages_arr_x(s: &Vec<char>, i: usize) -> (r: Option<(Vec<Stage>, usize)>)
    requires
        i <= s@.len(),
    ensures
        stages_step_model(r) == sp_stages_arr(s@, i as int),
{
    if i >= s.len() || s[i] != '[' {
        return None;
    }
    let j = skip_ws_x(s, i + 1);
    if j < s.len() && s[j] == ']' {
        let empty: Vec<Stage> = Vec::new();
        proof {
            assert(empty.deep_view() =~= Seq::<StageModel>::empty());
        }
        Some((empty, j + 1))
    } else {
        let empty: Vec<Stage> = Vec::new();
        proof {
            assert(empty.deep_view() =~= Seq::<StageModel>::empty());
        }
        parse_stages_elems_x(s, j, empty)
    }
}

/// The model of a parse that may have found the stages member.
pub open spec fn opt_stages_model(o: Option<Vec<Stage>>) -> Option<Seq<StageModel>> {
    match o {
        Some(v) => Some(v.deep_view()),
        None => None,
    }
}

/// The model of a partial parse of the stages envelope.
pub open spec fn stages_members_model(r: Option<(Option<Vec<Stage>>, usize)>) -> Option<(
    Option<Seq<StageModel>>,
    int,
)> {
    match r {
        Some(p) => Some((opt_stages_model(p.0), p.1 as int)),
        None => None,
    }
}

/// Parses the members of the stages envelope from the first key on.
fn parse_stages_members_x(s: &Vec<char>, i: usize, acc: Option<Vec<Stage>>) -> (r: Option<(
    Option<Vec<Stage>>,
    usize,
)>)
    requires
        i <= s@.len(),
    ensures
        stages_members_model(r) == sp_stages_members(s@, i as int, opt_stages_model(acc)),
    decreases s@.len() - i,
{
    proof {
        reveal_strlit("stages");
        assert("stages"@ =~= key_stages());
    }
    if i >= s.len() || s[i] != '"' {
        return None;
    }
    match parse_string_rest_x(s, i + 1) {
        None => None,
        Some((key, j)) => {
            proof {
                lemma_sp_string_rest(s@, i as int + 1);
            }
            let j2 = skip_ws_x(s, j);
            if j2 < s.len() && s[j2] == ':' {
                let j3 = skip_ws_x(s, j2 + 1);
                let after: Option<(Option<Vec<Stage>>, usize)> = if chars_eq_str(&key, "stages") {
                    if acc.is_some() {
                        None
                    } else {
                        match parse_stages_arr_x(s, j3) {
                            Some((ps, e)) => Some((Some(ps), e)),
                            None => None,
                        }
                    }
                } else {
                    match skip_value_x(s, j3) {
                        Some(e) => Some((acc, e)),
                        None => None,
                    }
                };
                match after {
                    None => None,
                    Some((acc2, e)) => {
                        proof {
                            lemma_sp_stages_arr(s@, j3 as int);
                            lemma_sp_value_end(s@, j3 as int);
                        }
                        let j4 = skip_ws_x(s, e);
                        if j4 < s.len() && s[j4] == '}' {
                            Some((acc2, j4 + 1))
                        } else if j4 < s.len() && s[j4] == ',' {
                            let k = skip_ws_x(s, j4 + 1);
                            parse_stages_members_x(s, k, acc2)
                        } else {
                            None
                        }
                    },
                }
            } else {
                None
            }
        },
    }
}

/// Parses a whole stages body.
pub fn parse_stages_body_x(s: &Vec<char>) -> (r: Option<Vec<Stage>>)
    ensures
        opt_stages_model(r) == sp_stages_body(s@),
{
    let i = skip_ws_x(s, 0);
    if i < s.len() && s[i] == '{' {
        let j = skip_ws_x(s, i + 1);
        if j < s.len() && s[j] == '}' {
            return None;
        }
        match parse_stages_members_x(s, j, None) {
            Some((Some(ps), e)) => {
                proof {
                    lemma_sp_stages_members(s@, j as int, None);
                }
                let t = skip_ws_x(s, e);
                if t == s.len() {
                    Some(ps)
                } else {
                    None
                }
            },
            _ => None,
        }
    } else {
        None
    }
}

/// The fields of a remote error record collected so far.
pub struct RemoteErrorAcc {
    pub status: Option<int>,
    pub error: Option<Seq<char>>,
}

/// No error field seen yet.
pub open spec fn remote_error_acc_empty() -> RemoteErrorAcc {
    RemoteErrorAcc { status: None, error: None }
}

/// One member value of an error record.
pub open spec fn sp_error_field_value(s: Seq<char>, i: int, acc: RemoteErrorAcc, key: Seq<char>)
    -> Option<(RemoteErrorAcc, int)> {
    if key == key_status() {
        if acc.status is Some {
            None
        } else {
            match sp_i32(s, i) {
                Some((v, e)) => Some((RemoteErrorAcc { status: Some(v), ..acc }, e)),
                None => None,
            }
        }
    } else if key == key_error() {
        if acc.error is Some {
            None
        } else {
            match sp_field_string(s, i) {
                Some((t, e)) => Some((RemoteErrorAcc { error: Some(t), ..acc }, e)),
                None => None,
            }
        }
    } else {
        match sp_value_end(s, i) {
            Some(e) => Some((acc, e)),
            None => None,
        }
    }
}

pub proof fn lemma_sp_error_field_value(s: Seq<char>, i: int, acc: RemoteErrorAcc, key: Seq<char>)
    requires
        0 <= i <= s.len(),
    ensures
        sp_error_field_value(s, i, acc, key) matches Some(r) ==> i < r.1 <= s.len(),
{
    crate::json::lemma_sp_i32(s, i);
    lemma_sp_field_string(s, i);
    lemma_sp_value_end(s, i);
}

/// The members of an error record from the first key on, the closing
/// brace included.
pub open spec fn sp_error_fields(s: Seq<char>, i: int, acc: RemoteErrorAcc) -> Option<(
    RemoteErrorAcc,
    int,
)>
    decreases s.len() - i,
{
    if !(0 <= i < s.len()) || s[i] != '"' {
        None
    } else {
        match sp_string_rest(s, i + 1) {
            None => None,
            Some((key, j)) => if !(i < j <= s.len()) {
                None
            } else {
                let j2 = skip_ws(s, j);
                if !(j <= j2) {
                    None
                } else if j2 < s.len() && s[j2] == ':' {
                    let j3 = skip_ws(s, j2 + 1);
                    if !(j2 + 1 <= j3 <= s.len()) {
                        None
                    } else {
                        match sp_error_field_value(s, j3, acc, key) {
                            None => None,
                            Some((acc2, e)) => if !(j3 < e <= s.len()) {
                                None
                            } else {
                                let j4 = skip_ws(s, e);
                                if !(e <= j4) {
                                    None
                                } else if j4 < s.len() && s[j4] == '}' {
                                    Some((acc2, j4 + 1))
                                } else if j4 < s.len() && s[j4] == ',' {
                                    let k = skip_ws(s, j4 + 1);
                                    if j4 + 1 <= k <= s.len() {
                                        sp_error_fields(s, k, acc2)
                                    } else {
                                        None
                                    }
                                } else {
                                    None
                                }
                            },
                        }
                    }
                } else {
                    None
                }
            },
        }
    }
}

/// A whole error body: an object with a numeric `status` and a textual
/// `error`, both required; nothing may follow it but whitespace.
pub open spec fn sp_error_body(s: Seq<char>) -> Option<RemoteErrorModel> {
    let i = skip_ws(s, 0);
    if 0 <= i < s.len() && s[i] == '{' {
        let j = skip_ws(s, i + 1);
        if !(i + 1 <= j <= s.len()) {
            None
        } else if j < s.len() && s[j] == '}' {
            None
        } else {
            match sp_error_fields(s, j, remote_error_acc_empty()) {
                Some((acc, e)) => match (acc.status, acc.error) {
                    (Some(st), Some(msg)) => if 0 <= e <= s.len() && skip_ws(s, e) == s.len() {
                        Some(RemoteErrorModel { status: st, error: msg })
                    } else {
                        None
                    },
                    _ => None,
                },
                None => None,
            }
        }
    } else {
        None
    }
}

/// The fields of an error record, as the parser holds them.
pub struct RemoteErrorFields {
    pub status: Option<i32>,
    pub error: Option<Vec<char>>,
}

/// The model of the error fields collected so far.
pub open spec fn error_fields_model(a: RemoteErrorFields) -> RemoteErrorAcc {
    RemoteErrorAcc {
        status: match a.status {
            Some(v) => Some(v as int),
            None => None,
        },
        error: opt_chars_model(a.error),
    }
}

/// The model of a partial parse of an error record's fields.
pub open spec fn error_fields_step_model(r: Option<(RemoteErrorFields, usize)>) -> Option<(
    RemoteErrorAcc,
    int,
)> {
    match r {
        Some(p) => Some((error_fields_model(p.0), p.1 as int)),
        None => None,
    }
}

/// Parses the members of an error record from the first key on.
fn parse_error_fields_x(s: &Vec<char>, i: usize, acc: RemoteErrorFields) -> (r: Option<(
    RemoteErrorFields,
    usize,
)>)
    requires
        i <= s@.len(),
    ensures
        error_fields_step_model(r) == sp_error_fields(s@, i as int, error_fields_model(acc)),
    decreases s@.len() - i,
{
    proof {
        reveal_strlit("status");
        reveal_strlit("error");
        assert("status"@ =~= key_status());
        assert("error"@ =~= key_error());
    }
    if i >= s.len() || s[i] != '"' {
        return None;
    }
    match parse_string_rest_x(s, i + 1) {
        None => None,
        Some((key, j)) => {
            proof {
                lemma_sp_string_rest(s@, i as int + 1);
            }
            let j2 = skip_ws_x(s, j);
            if j2 < s.len() && s[j2] == ':' {
                let j3 = skip_ws_x(s, j2 + 1);
                let ghost acc_m = error_fields_model(acc);
                let after: Option<(RemoteErrorFields, usize)> = if chars_eq_str(&key, "status") {
                    if acc.status.is_some() {
                        None
                    } else {
                        match parse_i32_x(s, j3) {
                            Some((v, e)) => Some((RemoteErrorFields { status: Some(v), ..acc }, e)),
                            None => None,
                        }
                    }
                } else if chars_eq_str(&key, "error") {
                    if acc.error.is_some() {
                        None
                    } else {
                        match parse_field_string_x(s, j3) {
                            Some((t, e)) => Some((RemoteErrorFields { error: Some(t), ..acc }, e)),
                            None => None,
                        }
                    }
                } else {
                    match skip_value_x(s, j3) {
                        Some(e) => Some((acc, e)),
                        None => None,
                    }
                };
                proof {
                    assert(error_fields_step_model(after) == sp_error_field_value(
                        s@,
                        j3 as int,
                        acc_m,
                        key@,
                    ));
                }
                match after {
                    None => None,
                    Some((acc2, e)) => {
                        proof {
                            lemma_sp_error_field_value(s@, j3 as int, acc_m, key@);
                        }
                        let j4 = skip_ws_x(s, e);
                        if j4 < s.len() && s[j4] == '}' {
                            Some((acc2, j4 + 1))
                        } else if j4 < s.len() && s[j4] == ',' {
                            let k = skip_ws_x(s, j4 + 1);
                            parse_error_fields_x(s, k, acc2)
                        } else {
                            None
                        }
                    },
                }
            } else {
                None
            }
        },
    }
}

pub proof fn lemma_sp_error_fields(s: Seq<char>, i: int, acc: RemoteErrorAcc)
    ensures
        sp_error_fields(s, i, acc) matches Some(r) ==> i < r.1 <= s.len(),
    decreases s.len() - i,
{
    if 0 <= i < s.len() && s[i] == '"' {
        match sp_string_rest(s, i + 1) {
            None => {},
            Some((key, j)) => if i < j <= s.len() {
                let j2 = skip_ws(s, j);
                if j <= j2 && j2 < s.len() && s[j2] == ':' {
                    let j3 = skip_ws(s, j2 + 1);
                    if j2 + 1 <= j3 <= s.len() {
                        match sp_error_field_value(s, j3, acc, key) {
                            None => {},
                            Some((acc2, e)) => if j3 < e <= s.len() {
                                let j4 = skip_ws(s, e);
                                if e <= j4 && j4 < s.len() && s[j4] == ',' {
                                    let k = skip_ws(s, j4 + 1);
                                    if j4 + 1 <= k <= s.len() {
                                        lemma_sp_error_fields(s, k, acc2);
                                    }
                                }
                            },
                        }
                    }
                }
            },
        }
    }
}

/// The model of a parse that yields a remote error record.
pub open spec fn error_body_model(r: Option<Error>) -> Option<RemoteErrorModel> {
    match r {
        Some(e) => Some(e@),
        None => None,
    }
}

/// Parses a whole error body.
pub fn parse_error_body_x(s: &Vec<char>) -> (r: Option<Error>)
    ensures
        error_body_model(r) == sp_error_body(s@),
{
    let i = skip_ws_x(s, 0);
    if i < s.len() && s[i] == '{' {
        let j = skip_ws_x(s, i + 1);
        if j < s.len() && s[j] == '}' {
            return None;
        }
        let empty = RemoteErrorFields { status: None, error: None };
        proof {
            assert(error_fields_model(empty) == remote_error_acc_empty());
        }
        match parse_error_fields_x(s, j, empty) {
            Some((acc, e)) => match (acc.status, acc.error) {
                (Some(st), Some(msg)) => {
                    proof {
                        lemma_sp_error_fields(s@, j as int, remote_error_acc_empty());
                    }
                    let t = skip_ws_x(s, e);
                    if t == s.len() {
                        Some(Error { status: st, error: chars_to_string(&msg) })
                    } else {
                        None
                    }
                },
                _ => None,
            },
            None => None,
        }
    } else {
        None
    }
}

/// The summary of a deployment confirmation collected so far.
pub open spec fn sp_deploy_field_value(
    s: Seq<char>,
    i: int,
    acc: Option<Seq<char>>,
    key: Seq<char>,
) -> Option<(Option<Seq<char>>, int)> {
    if key == key_summary() {
        if acc is Some {
            None
        } else {
            match sp_field_string(s, i) {
                Some((t, e)) => Some((Some(t), e)),
                None => None,
            }
        }
    } else {
        match sp_value_end(s, i) {
            Some(e) => Some((acc, e)),
            None => None,
        }
    }
}

pub proof fn lemma_sp_deploy_field_value(
    s: Seq<char>,
    i: int,
    acc: Option<Seq<char>>,
    key: Seq<char>,
)
    requires
        0 <= i <= s.len(),
    ensures
        sp_deploy_field_value(s, i, acc, key) matches Some(r) ==> i < r.1 <= s.len(),
{
    lemma_sp_field_string(s, i);
    lemma_sp_value_end(s, i);
}

/// The members of a deployment confirmation from the first key on, the
/// closing brace included.
pub open spec fn sp_deploy_fields(s: Seq<char>, i: int, acc: Option<Seq<char>>) -> Option<(
    Option<Seq<char>>,
    int,
)>
    decreases s.len() - i,
{
    if !(0 <= i < s.len()) || s[i] != '"' {
        None
    } else {
        match sp_string_rest(s, i + 1) {
            None => None,
            Some((key, j)) => if !(i < j <= s.len()) {
                None
            } else {
                let j2 = skip_ws(s, j);
                if !(j <= j2) {
                    None
                } else if j2 < s.len() && s[j2] == ':' {
                    let j3 = skip_ws(s, j2 + 1);
                    if !(j2 + 1 <= j3 <= s.len()) {
                        None
                    } else {
                        match sp_deploy_field_value(s, j3, acc, key) {
                            None => None,
                            Some((acc2, e)) => if !(j3 < e <= s.len()) {
                                None
                            } else {
                                let j4 = skip_ws(s, e);
                                if !(e <= j4) {
                                    None
                                } else if j4 < s.len() && s[j4] == '}' {
                                    Some((acc2, j4 + 1))
                                } else if j4 < s.len() && s[j4] == ',' {
                                    let k = skip_ws(s, j4 + 1);
                                    if j4 + 1 <= k <= s.len() {
                                        sp_deploy_fields(s, k, acc2)
                                    } else {
                                        None
                                    }
                                } else {
                                    None
                                }
                            },
                        }
                    }
                } else {
                    None
                }
            },
        }
    }
}

/// A whole deployment confirmation body: an object with a textual
/// `summary`, required; nothing may follow it but whitespace.
pub open spec fn sp_deploy_body(s: Seq<char>) -> Option<Seq<char>> {
    let i = skip_ws(s, 0);
    if 0 <= i < s.len() && s[i] == '{' {
        let j = skip_ws(s, i + 1);
        if !(i + 1 <= j <= s.len()) {
            None
        } else if j < s.len() && s[j] == '}' {
            None
        } else {
            match sp_deploy_fields(s, j, None) {
                Some((Some(t), e)) => if 0 <= e <= s.len() && skip_ws(s, e) == s.len() {
                    Some(t)
                } else {
                    None
                },
                _ => None,
            }
        }
    } else {
        None
    }
}

pub proof fn lemma_sp_deploy_fields(s: Seq<char>, i: int, acc: Option<Seq<char>>)
    ensures
        sp_deploy_fields(s, i, acc) matches Some(r) ==> i < r.1 <= s.len(),
    decreases s.len() - i,
{
    if 0 <= i < s.len() && s[i] == '"' {
        match sp_string_rest(s, i + 1) {
            None => {},
            Some((key, j)) => if i < j <= s.len() {
                let j2 = skip_ws(s, j);
                if j <= j2 && j2 < s.len() && s[j2] == ':' {
                    let j3 = skip_ws(s, j2 + 1);
                    if j2 + 1 <= j3 <= s.len() {
                        match sp_deploy_field_value(s, j3, acc, key) {
                            None => {},
                            Some((acc2, e)) => if j3 < e <= s.len() {
                                let j4 = skip_ws(s, e);
                                if e <= j4 && j4 < s.len() && s[j4] == ',' {
                                    let k = skip_ws(s, j4 + 1);
                                    if j4 + 1 <= k <= s.len() {
                                        lemma_sp_deploy_fields(s, k, acc2);
                                    }
                                }
                            },
                        }
                    }
                }
            },
        }
    }
}

/// The model of a partial parse of a deployment confirmation.
pub open spec fn deploy_fields_step_model(r: Option<(Option<Vec<char>>, usize)>) -> Option<(
    Option<Seq<char>>,
    int,
)> {
    match r {
        Some(p) => Some((opt_chars_model(p.0), p.1 as int)),
        None => None,
    }
}

/// Parses the members of a deployment confirmation from the first key
/// on.
fn parse_deploy_fields_x(s: &Vec<char>, i: usize, acc: Option<Vec<char>>) -> (r: Option<(
    Option<Vec<char>>,
    usize,
)>)
    requires
        i <= s@.len(),
    ensures
        deploy_fields_step_model(r) == sp_deploy_fields(s@, i as int, opt_chars_model(acc)),
    decreases s@.len() - i,
{
    proof {
        reveal_strlit("summary");
        assert("summary"@ =~= key_summary());
    }
    if i >= s.len() || s[i] != '"' {
        return None;
    }
    match parse_string_rest_x(s, i + 1) {
        None => None,
        Some((key, j)) => {
            proof {
                lemma_sp_string_rest(s@, i as int + 1);
            }
            let j2 = skip_ws_x(s, j);
            if j2 < s.len() && s[j2] == ':' {
                let j3 = skip_ws_x(s, j2 + 1);
                let ghost acc_m = opt_chars_model(acc);
                let after: Option<(Option<Vec<char>>, usize)> = if chars_eq_str(&key, "summary") {
                    if acc.is_some() {
                        None
                    } else {
                        match parse_field_string_x(s, j3) {
                            Some((t, e)) => Some((Some(t), e)),
                            None => None,
                        }
                    }
                } else {
                    match skip_value_x(s, j3) {
                        Some(e) => Some((acc, e)),
                        None => None,
                    }
                };
                proof {
                    assert(deploy_fields_step_model(after) == sp_deploy_field_value(
                        s@,
                        j3 as int,
                        acc_m,
                        key@,
                    ));
                }
                match after {
                    None => None,
                    Some((acc2, e)) => {
                        proof {
                            lemma_sp_deploy_field_value(s@, j3 as int, acc_m, key@);
                        }
                        let j4 = skip_ws_x(s, e);
                        if j4 < s.len() && s[j4] == '}' {
                            Some((acc2, j4 + 1))
                        } else if j4 < s.len() && s[j4] == ',' {
                            let k = skip_ws_x(s, j4 + 1);
                            parse_deploy_fields_x(s, k, acc2)
                        } else {
                            None
                        }
                    },
                }
            } else {
                None
            }
        },
    }
}

/// The model of a parse that yields a deployment summary.
pub open spec fn deploy_body_model(r: Option<String>) -> Option<Seq<char>> {
    match r {
        Some(t) => Some(t@),
        None => None,
    }
}

/// Parses a whole deployment confirmation body, yielding its summary.
pub fn parse_deploy_body_x(s: &Vec<char>) -> (r: Option<String>)
    ensures
        deploy_body_model(r) == sp_deploy_body(s@),
{
    let i = skip_ws_x(s, 0);
    if i < s.len() && s[i] == '{' {
        let j = skip_ws_x(s, i + 1);
        if j < s.len() && s[j] == '}' {
            return None;
        }
        match parse_deploy_fields_x(s, j, None) {
            Some((Some(t), e)) => {
                proof {
                    lemma_sp_deploy_fields(s@, j as int, None);
                }
                let t2 = skip_ws_x(s, e);
                if t2 == s.len() {
                    Some(chars_to_string(&t))
                } else {
                    None
                }
            },
            _ => None,
        }
    } else {
        None
    }
}

} // verus!
