//! The faces that can be used: those of the program, and the user's own.
//!
//! A face that cannot be read is noted and left out; the others stay.

use std::sync::Arc;

use vstd::prelude::*;

use super::spec::{problem_text, problem_views, FaceSpec, Problem, ProblemCode, ProblemView};
use crate::text::{
    debug_text, ends_with, has_suffix, join2, join3, join_with, quoted, same, separated, texts,
    to_chars,
};

verus! {

/// The face to fall back to.
pub const DEFAULT_FACE_ID: &'static str = "egg";

/// The ids of the program's own faces.
pub open spec fn builtin_names() -> Seq<Seq<char>> {
    seq!["egg"@, "round"@, "squircle"@, "bean"@]
}

/// The ids of the program's own faces, in the order in which menus show them.
pub fn builtin_ids() -> (r: Vec<&'static str>)
    ensures
        r@.len() == builtin_names().len(),
        forall|i: int| 0 <= i < 4 ==> (#[trigger] r@[i])@ == builtin_names()[i],
{
    let mut out: Vec<&'static str> = Vec::new();
    out.push("egg");
    out.push("round");
    out.push("squircle");
    out.push("bean");
    out
}

/// A face file that was read: where it comes from, and the face or what is wrong with it.
#[derive(Debug)]
pub struct ReadFace {
    /// The id that the file should have, for a face of the program; the path, for a user's
    /// face.
    pub label: String,
    pub face: Result<FaceSpec, Vec<Problem>>,
}

/// The faces that can be used.
#[derive(Debug)]
pub struct Registry {
    faces: Vec<Arc<FaceSpec>>,
    problems: Vec<(String, Vec<Problem>)>,
}

/// What a `Registry` holds.
#[verifier::ext_equal]
pub struct RegistryView {
    pub faces: Seq<Arc<FaceSpec>>,
    /// The faces that could not be used, each with what is wrong with it.
    pub problems: Seq<(Seq<char>, Seq<ProblemView>)>,
}

/// What a list of faces that could not be used holds.
pub open spec fn trouble_views(v: Seq<(String, Vec<Problem>)>) -> Seq<
    (Seq<char>, Seq<ProblemView>),
> {
    Seq::new(v.len(), |i: int| (v[i].0@, problem_views(v[i].1@)))
}

impl View for Registry {
    type V = RegistryView;

    closed spec fn view(&self) -> RegistryView {
        RegistryView { faces: self.faces@, problems: trouble_views(self.problems@) }
    }
}

/// The index of the first face with this id, or the number of faces if there is none.
pub open spec fn face_index(faces: Seq<Arc<FaceSpec>>, id: Seq<char>) -> int
    decreases faces.len(),
{
    if faces.len() == 0 || faces[0].id@ == id {
        0
    } else {
        1 + face_index(faces.drop_first(), id)
    }
}

/// Whether there is a face with this id.
pub open spec fn has_face(faces: Seq<Arc<FaceSpec>>, id: Seq<char>) -> bool {
    face_index(faces, id) < faces.len()
}

/// The ids of faces.
pub open spec fn ids_of(faces: Seq<Arc<FaceSpec>>) -> Seq<Seq<char>> {
    Seq::new(faces.len(), |i: int| faces[i].id@)
}

/// The name of the file of one of the program's own faces.
pub open spec fn builtin_file(id: Seq<char>) -> Seq<char> {
    "faces/"@ + id + ".toml"@
}

/// The registry with one more face of the program. Its file must have the name of its id.
pub open spec fn with_builtin(r: RegistryView, read: ReadFace) -> RegistryView {
    match read.face {
        Ok(face) => if face.id@ == read.label@ {
            RegistryView { faces: r.faces.push(Arc::new(face)), ..r }
        } else {
            RegistryView {
                problems: r.problems.push(
                    (
                        builtin_file(read.label@),
                        seq![
                            ProblemView {
                                code: ProblemCode::Id,
                                message: "ファイル名 "@ + read.label@ + ".toml と id "@ + debug_text(
                                    face.id@,
                                ) + " が一致しません"@,
                            },
                        ],
                    ),
                ),
                ..r
            }
        },
        Err(ps) => RegistryView {
            problems: r.problems.push((builtin_file(read.label@), problem_views(ps@))),
            ..r
        },
    }
}

/// The registry with one more face of the user. An id that is taken stays with the face that
/// has it.
pub open spec fn with_user(r: RegistryView, read: ReadFace) -> RegistryView {
    match read.face {
        Ok(face) => if has_face(r.faces, face.id@) {
            RegistryView {
                problems: r.problems.push(
                    (
                        read.label@,
                        seq![
                            ProblemView {
                                code: ProblemCode::Id,
                                message: "id "@ + debug_text(face.id@)
                                    + " は既にある顔と重複しています。別の id にしてください"@,
                            },
                        ],
                    ),
                ),
                ..r
            }
        } else {
            RegistryView { faces: r.faces.push(Arc::new(face)), ..r }
        },
        Err(ps) => RegistryView {
            problems: r.problems.push((read.label@, problem_views(ps@))),
            ..r
        },
    }
}

/// A registry without faces.
pub open spec fn empty_registry() -> RegistryView {
    RegistryView { faces: Seq::empty(), problems: Seq::empty() }
}

/// The registry of the program's own faces.
pub open spec fn builtin_registry(read: Seq<ReadFace>) -> RegistryView
    decreases read.len(),
{
    if read.len() == 0 {
        empty_registry()
    } else {
        with_builtin(builtin_registry(read.drop_last()), read.last())
    }
}

/// A registry with the user's faces added.
pub open spec fn user_registry(base: RegistryView, read: Seq<ReadFace>) -> RegistryView
    decreases read.len(),
{
    if read.len() == 0 {
        base
    } else {
        with_user(user_registry(base, read.drop_last()), read.last())
    }
}

/// The face that an id stands for: the one with the id, the default, or the first.
pub open spec fn resolved(faces: Seq<Arc<FaceSpec>>, id: Seq<char>) -> Arc<FaceSpec> {
    if has_face(faces, id) {
        faces[face_index(faces, id)]
    } else if has_face(faces, DEFAULT_FACE_ID@) {
        faces[face_index(faces, DEFAULT_FACE_ID@)]
    } else {
        faces[0]
    }
}

fn one_problem(message: String) -> (r: Vec<Problem>)
    ensures
        problem_views(r@) == seq![ProblemView { code: ProblemCode::Id, message: message@ }],
{
    let ghost text = message@;
    let mut out: Vec<Problem> = Vec::new();
    out.push(Problem::new(ProblemCode::Id, message));
    assert(problem_views(out@) =~= seq![ProblemView { code: ProblemCode::Id, message: text }]);
    out
}

impl Default for Registry {
    /// No faces.
    fn default() -> (r: Self)
        ensures
            r@ == empty_registry(),
    {
        let r = Registry { faces: Vec::new(), problems: Vec::new() };
        assert(r@ =~= empty_registry());
        r
    }
}

impl Registry {
    fn note(&mut self, label: String, problems: Vec<Problem>)
        ensures
            final(self)@ == (RegistryView {
                problems: old(self)@.problems.push((label@, problem_views(problems@))),
                ..old(self)@
            }),
    {
        let ghost before = self.problems@;
        let ghost added = (label@, problem_views(problems@));
        self.problems.push((label, problems));
        assert(trouble_views(self.problems@) =~= trouble_views(before).push(added));
    }

    fn add_builtin(&mut self, read: ReadFace)
        ensures
            final(self)@ == with_builtin(old(self)@, read),
    {
        let label = read.label;
        let file = join3("faces/", label.as_str(), ".toml");
        match read.face {
            Ok(face) => if same(face.id.as_str(), label.as_str()) {
                self.faces.push(Arc::new(face));
            } else {
                let mut message = join3("ファイル名 ", label.as_str(), ".toml と id ");
                message.append(quoted(face.id.as_str()).as_str());
                message.append(" が一致しません");
                self.note(file, one_problem(message));
            },
            Err(ps) => {
                self.note(file, ps);
            },
        }
    }

    fn add_user(&mut self, read: ReadFace)
        ensures
            final(self)@ == with_user(old(self)@, read),
    {
        match read.face {
            Ok(face) => if self.get(face.id.as_str()).is_some() {
                let message = join3(
                    "id ",
                    quoted(face.id.as_str()).as_str(),
                    " は既にある顔と重複しています。別の id にしてください",
                );
                self.note(read.label, one_problem(message));
            } else {
                self.faces.push(Arc::new(face));
            },
            Err(ps) => {
                self.note(read.label, ps);
            },
        }
    }

    /// The registry of the program's own faces, given what their files hold.
    pub fn builtin(read: Vec<ReadFace>) -> (r: Self)
        ensures
            r@ == builtin_registry(read@),
    {
        let ghost all = read@;
        let mut rest = read;
        let mut r = Registry::default();
        let n: usize = rest.len();
        let mut i: usize = 0;
        assert(all.skip(0) =~= all);
        assert(all.take(0) =~= Seq::<ReadFace>::empty());
        while i < n
            invariant
                i <= n == all.len(),
                rest@ == all.skip(i as int),
                r@ == builtin_registry(all.take(i as int)),
            decreases n - i,
        {
            assert(all.take(i + 1).drop_last() =~= all.take(i as int));
            let one = rest.remove(0);
            assert(one == all[i as int]);
            assert(rest@ =~= all.skip(i + 1));
            r.add_builtin(one);
            i += 1;
        }
        assert(all.take(n as int) =~= all);
        r
    }

    /// The registry with the user's faces added, given what their files hold, in the order of
    /// the files' names.
    pub fn load_in(builtin: Registry, read: Vec<ReadFace>) -> (r: Self)
        ensures
            r@ == user_registry(builtin@, read@),
    {
        let ghost base = builtin@;
        let ghost all = read@;
        let mut rest = read;
        let mut r = builtin;
        let n: usize = rest.len();
        let mut i: usize = 0;
        assert(all.skip(0) =~= all);
        assert(all.take(0) =~= Seq::<ReadFace>::empty());
        while i < n
            invariant
                i <= n == all.len(),
                rest@ == all.skip(i as int),
                r@ == user_registry(base, all.take(i as int)),
            decreases n - i,
        {
            assert(all.take(i + 1).drop_last() =~= all.take(i as int));
            let one = rest.remove(0);
            assert(one == all[i as int]);
            assert(rest@ =~= all.skip(i + 1));
            r.add_user(one);
            i += 1;
        }
        assert(all.take(n as int) =~= all);
        r
    }

    fn position(&self, id: &str) -> (r: usize)
        ensures
            r == face_index(self@.faces, id@),
            r <= self.faces@.len(),
            self@.faces == self.faces@,
    {
        let ghost all = self.faces@;
        let mut i: usize = 0;
        assert(all.skip(0) =~= all);
        while i < self.faces.len()
            invariant
                i <= self.faces@.len(),
                all == self.faces@,
                i + face_index(all.skip(i as int), id@) == face_index(all, id@),
            decreases self.faces@.len() - i,
        {
            assert(all.skip(i as int)[0] == all[i as int]);
            if same(self.faces[i].id.as_str(), id) {
                return i;
            }
            assert(all.skip(i as int).drop_first() =~= all.skip(i + 1));
            i += 1;
        }
        i
    }

    /// The face with this id.
    pub fn get(&self, id: &str) -> (r: Option<&Arc<FaceSpec>>)
        ensures
            r is Some == has_face(self@.faces, id@),
            r matches Some(f) ==> *f == self@.faces[face_index(self@.faces, id@)],
    {
        let at = self.position(id);
        if at < self.faces.len() {
            Some(&self.faces[at])
        } else {
            None
        }
    }

    /// The face that an id stands for. An unknown id is no error: it falls back to the default,
    /// or to the first face if the default is missing.
    pub fn resolve(&self, id: &str) -> (r: Arc<FaceSpec>)
        requires
            self@.faces.len() > 0,
        ensures
            r == resolved(self@.faces, id@),
    {
        match self.get(id) {
            Some(f) => Arc::clone(f),
            None => match self.get(DEFAULT_FACE_ID) {
                Some(f) => Arc::clone(f),
                None => Arc::clone(&self.faces[0]),
            },
        }
    }

    /// Whether there is no face at all.
    pub fn is_empty(&self) -> (r: bool)
        ensures
            r == (self@.faces.len() == 0),
    {
        self.faces.len() == 0
    }

    /// The ids of the faces, in order.
    pub fn ids(&self) -> (r: Vec<&str>)
        ensures
            r@.len() == self@.faces.len(),
            forall|i: int| 0 <= i < r@.len() ==> (#[trigger] r@[i])@ == self@.faces[i].id@,
    {
        let mut out: Vec<&str> = Vec::new();
        let mut i: usize = 0;
        while i < self.faces.len()
            invariant
                i <= self.faces@.len(),
                out@.len() == i,
                forall|k: int| 0 <= k < i ==> (#[trigger] out@[k])@ == self.faces@[k].id@,
            decreases self.faces@.len() - i,
        {
            out.push(self.faces[i].id.as_str());
            i += 1;
        }
        out
    }

    /// The faces, in order.
    pub fn all(&self) -> (r: &Vec<Arc<FaceSpec>>)
        ensures
            r@ == self@.faces,
    {
        &self.faces
    }

    /// The faces that could not be used.
    pub fn problems(&self) -> (r: &Vec<(String, Vec<Problem>)>)
        ensures
            trouble_views(r@) == self@.problems,
    {
        &self.problems
    }
}

/// The lines about one face that could not be used.
pub open spec fn trouble_lines(label: Seq<char>, problems: Seq<ProblemView>) -> Seq<Seq<char>> {
    seq!["ccsessions: 顔 "@ + label + " を読み込めませんでした:"@] + Seq::new(
        problems.len(),
        |i: int| "  "@ + problem_text(problems[i]),
    )
}

/// The lines about all faces that could not be used.
pub open spec fn report_of(troubles: Seq<(Seq<char>, Seq<ProblemView>)>) -> Seq<Seq<char>>
    decreases troubles.len(),
{
    if troubles.len() == 0 {
        Seq::empty()
    } else {
        report_of(troubles.drop_last()) + trouble_lines(troubles.last().0, troubles.last().1)
    }
}

fn lines_of(label: &str, problems: &Vec<Problem>) -> (r: Vec<String>)
    ensures
        texts(r@) == trouble_lines(label@, problem_views(problems@)),
{
    let mut out: Vec<String> = Vec::new();
    out.push(join3("ccsessions: 顔 ", label, " を読み込めませんでした:"));
    let ghost head = out@[0]@;
    let mut i: usize = 0;
    while i < problems.len()
        invariant
            i <= problems@.len(),
            out@.len() == i + 1,
            out@[0]@ == head,
            forall|k: int|
                0 <= k < i ==> (#[trigger] out@[k + 1])@ == "  "@ + problem_text(problems@[k]@),
        decreases problems@.len() - i,
    {
        let ghost before = out@;
        out.push(join2("  ", problems[i].text().as_str()));
        assert forall|k: int| 0 <= k < i + 1 implies (#[trigger] out@[k + 1])@ == "  "@
            + problem_text(problems@[k]@) by {
            if k < i {
                assert(out@[k + 1] == before[k + 1]);
            }
        }
        i += 1;
    }
    let ghost want = trouble_lines(label@, problem_views(problems@));
    assert forall|k: int| 0 <= k < want.len() implies (#[trigger] texts(out@)[k]) == want[k] by {
        if k > 0 {
            assert(out@[k - 1 + 1]@ == "  "@ + problem_text(problems@[k - 1]@));
        }
    }
    assert(texts(out@) =~= want);
    out
}

impl Registry {
    /// The lines that tell of the faces that could not be used. There are none exactly if all
    /// could.
    pub fn problem_report(&self) -> (r: Vec<String>)
        ensures
            texts(r@) == report_of(self@.problems),
            (r@.len() == 0) == (self@.problems.len() == 0),
    {
        let ghost all = self@.problems;
        let mut out: Vec<String> = Vec::new();
        let mut i: usize = 0;
        assert(texts(out@) =~= report_of(all.take(0)));
        while i < self.problems.len()
            invariant
                i <= self.problems@.len(),
                all == trouble_views(self.problems@),
                texts(out@) == report_of(all.take(i as int)),
                i > 0 ==> out@.len() > 0,
            decreases self.problems@.len() - i,
        {
            let (label, problems) = &self.problems[i];
            let mut more = lines_of(label.as_str(), problems);
            assert(all.take(i + 1).drop_last() =~= all.take(i as int));
            assert(all.take(i + 1).last() == all[i as int]);
            let ghost a = out@;
            let ghost b = more@;
            assert(texts(b).len() > 0);
            out.append(&mut more);
            assert(texts(out@) =~= texts(a) + texts(b));
            i += 1;
        }
        assert(all.take(all.len() as int) =~= all);
        out
    }

    /// The ids of the faces with commas between them.
    pub fn id_list(&self) -> (r: String)
        ensures
            r@ == separated(ids_of(self@.faces), ", "@),
    {
        let mut names: Vec<String> = Vec::new();
        let mut i: usize = 0;
        while i < self.faces.len()
            invariant
                i <= self.faces@.len(),
                names@.len() == i,
                forall|k: int| 0 <= k < i ==> (#[trigger] names@[k])@ == self.faces@[k].id@,
            decreases self.faces@.len() - i,
        {
            names.push(self.faces[i].id.clone());
            i += 1;
        }
        assert(texts(names@) =~= ids_of(self@.faces));
        join_with(&names, ", ")
    }

    /// What is to be said when an id that no face has is resolved.
    pub fn fallback_notice(&self, id: &str) -> (r: Option<String>)
        ensures
            r is None == has_face(self@.faces, id@),
            r matches Some(t) ==> t@ == "ccsessions: 顔 "@ + debug_text(id@)
                + " が見つかりません。egg を使います（使える顔: "@ + separated(
                ids_of(self@.faces),
                ", "@,
            ) + "）"@,
    {
        if self.get(id).is_some() {
            return None;
        }
        let mut out = join3(
            "ccsessions: 顔 ",
            quoted(id).as_str(),
            " が見つかりません。egg を使います（使える顔: ",
        );
        out.append(self.id_list().as_str());
        out.append("）");
        Some(out)
    }
}

/// Whether a file of this name holds a user's face: a TOML file that is not a template.
pub open spec fn is_face_file(name: Seq<char>) -> bool {
    name.len() > 5 && has_suffix(name, ".toml"@) && name[0] != '_'
}

/// Whether a file of this name holds a user's face. Templates begin with `_`.
pub fn holds_face(name: &str) -> (r: bool)
    ensures
        r == is_face_file(name@),
{
    let v = to_chars(name);
    v.len() > 5 && ends_with(&v, ".toml") && v[0] != '_'
}

// ---- laws -----------------------------------------------------------------------------------

proof fn lemma_face_index(faces: Seq<Arc<FaceSpec>>, id: Seq<char>)
    ensures
        0 <= face_index(faces, id) <= faces.len(),
        has_face(faces, id) ==> faces[face_index(faces, id)].id@ == id,
        forall|k: int| 0 <= k < face_index(faces, id) ==> (#[trigger] faces[k]).id@ != id,
    decreases faces.len(),
{
    if faces.len() > 0 && faces[0].id@ != id {
        let rest = faces.drop_first();
        lemma_face_index(rest, id);
        assert forall|k: int| 0 <= k < face_index(faces, id) implies (#[trigger] faces[k]).id@
            != id by {
            if k > 0 {
                assert(faces[k] == rest[k - 1]);
            }
        }
    }
}

/// Whether no two faces share an id.
pub open spec fn ids_differ(faces: Seq<Arc<FaceSpec>>) -> bool {
    forall|i: int, j: int|
        0 <= i < j < faces.len() ==> (#[trigger] faces[i]).id@ != (#[trigger] faces[j]).id@
}

/// User's faces are added behind the faces that are there, which stay as they are: no face of
/// the program can be replaced. Ids stay distinct if they were.
pub proof fn law_user_faces_replace_nothing(base: RegistryView, read: Seq<ReadFace>)
    ensures
        base.faces.len() <= user_registry(base, read).faces.len(),
        user_registry(base, read).faces.take(base.faces.len() as int) == base.faces,
        ids_differ(base.faces) ==> ids_differ(user_registry(base, read).faces),
    decreases read.len(),
{
    if read.len() == 0 {
        assert(base.faces.take(base.faces.len() as int) =~= base.faces);
    } else {
        let before = user_registry(base, read.drop_last());
        let after = user_registry(base, read);
        law_user_faces_replace_nothing(base, read.drop_last());
        assert(after.faces.take(base.faces.len() as int) =~= before.faces.take(
            base.faces.len() as int,
        ));
        if let Ok(face) = read.last().face {
            if !has_face(before.faces, face.id@) {
                lemma_face_index(before.faces, face.id@);
                assert forall|i: int, j: int|
                    ids_differ(base.faces) && 0 <= i < j < after.faces.len() implies (
                #[trigger] after.faces[i]).id@ != (#[trigger] after.faces[j]).id@ by {
                    assert(after.faces[i] == before.faces[i]);
                    if j < before.faces.len() {
                        assert(after.faces[j] == before.faces[j]);
                    }
                }
            }
        }
    }
}

/// A face that resolves before user's faces are added resolves to the same face after.
pub proof fn law_known_ids_keep_their_face(base: RegistryView, read: Seq<ReadFace>, id: Seq<char>)
    requires
        has_face(base.faces, id),
    ensures
        resolved(user_registry(base, read).faces, id) == resolved(base.faces, id),
{
    let all = user_registry(base, read).faces;
    law_user_faces_replace_nothing(base, read);
    lemma_face_index(base.faces, id);
    lemma_face_index(all, id);
    let i = face_index(base.faces, id);
    assert(all[i] == all.take(base.faces.len() as int)[i]);
    if face_index(all, id) < i {
        let k = face_index(all, id);
        assert(all[k] == all.take(base.faces.len() as int)[k]);
    }
}

/// Every file that was read is either a face or noted as a problem.
pub proof fn law_every_file_is_accounted_for(base: RegistryView, read: Seq<ReadFace>)
    ensures
        user_registry(base, read).faces.len() + user_registry(base, read).problems.len()
            == base.faces.len() + base.problems.len() + read.len(),
    decreases read.len(),
{
    if read.len() > 0 {
        law_every_file_is_accounted_for(base, read.drop_last());
    }
}

/// An id that no face has resolves to the default face if there is one.
pub proof fn law_unknown_ids_fall_back(faces: Seq<Arc<FaceSpec>>, id: Seq<char>)
    requires
        !has_face(faces, id),
        has_face(faces, DEFAULT_FACE_ID@),
    ensures
        resolved(faces, id).id@ == DEFAULT_FACE_ID@,
{
    lemma_face_index(faces, DEFAULT_FACE_ID@);
}

/// There is a face with an id just if one of the faces has it.
pub proof fn law_a_face_is_found_by_its_id(faces: Seq<Arc<FaceSpec>>, id: Seq<char>)
    ensures
        has_face(faces, id) <==> exists|i: int|
            0 <= i < faces.len() && (#[trigger] faces[i]).id@ == id,
        has_face(faces, id) ==> resolved(faces, id).id@ == id,
        faces.len() > 0 && !has_face(faces, id) && !has_face(faces, "egg"@) ==> resolved(faces, id)
            == faces[0],
        !has_face(faces, id) && has_face(faces, "egg"@) ==> resolved(faces, id).id@ == "egg"@,
{
    lemma_face_index(faces, id);
    lemma_face_index(faces, "egg"@);
    if exists|i: int| 0 <= i < faces.len() && (#[trigger] faces[i]).id@ == id {
        let i = choose|i: int| 0 <= i < faces.len() && (#[trigger] faces[i]).id@ == id;
        if !has_face(faces, id) {
            assert(faces[i].id@ != id);
        }
    }
}

/// A user's face with an id that no face has so far is added, last; one with an id that is taken
/// is not, and is noted. A file that cannot be read as a face is noted with its problems.
pub proof fn law_what_becomes_of_a_users_face(r: RegistryView, read: ReadFace)
    ensures
        read.face is Ok && !has_face(r.faces, read.face->Ok_0.id@) ==> {
            let after = with_user(r, read);
            &&& after.problems == r.problems
            &&& after.faces.len() == r.faces.len() + 1
            &&& after.faces.drop_last() == r.faces
            &&& *after.faces.last() == read.face->Ok_0
        },
        read.face is Ok && has_face(r.faces, read.face->Ok_0.id@) ==> {
            let after = with_user(r, read);
            &&& after.faces == r.faces
            &&& after.problems.len() == r.problems.len() + 1
            &&& after.problems.drop_last() == r.problems
            &&& after.problems.last().0 == read.label@
            &&& after.problems.last().1.len() == 1
            &&& after.problems.last().1[0].code == ProblemCode::Id
        },
        read.face is Err ==> {
            let after = with_user(r, read);
            &&& after.faces == r.faces
            &&& after.problems.len() == r.problems.len() + 1
            &&& after.problems.drop_last() == r.problems
            &&& after.problems.last().0 == read.label@
            &&& after.problems.last().1 == problem_views(read.face->Err_0@)
        },
{
    let after = with_user(r, read);
    if after.faces.len() > r.faces.len() {
        assert(after.faces.drop_last() =~= r.faces);
    } else {
        assert(after.problems.drop_last() =~= r.problems);
    }
}

/// A face of the program is added, last, if its file has the name of its id, and is noted
/// otherwise, under the name of its file.
pub proof fn law_what_becomes_of_a_face_of_the_program(r: RegistryView, read: ReadFace)
    ensures
        read.face is Ok && read.face->Ok_0.id@ == read.label@ ==> {
            let after = with_builtin(r, read);
            &&& after.problems == r.problems
            &&& after.faces.len() == r.faces.len() + 1
            &&& after.faces.drop_last() == r.faces
            &&& *after.faces.last() == read.face->Ok_0
        },
        !(read.face is Ok && read.face->Ok_0.id@ == read.label@) ==> {
            let after = with_builtin(r, read);
            &&& after.faces == r.faces
            &&& after.problems.len() == r.problems.len() + 1
            &&& after.problems.drop_last() == r.problems
            &&& after.problems.last().0 == "faces/"@ + read.label@ + ".toml"@
            &&& read.face is Ok ==> after.problems.last().1.len() == 1
                && after.problems.last().1[0].code == ProblemCode::Id
            &&& read.face is Err ==> after.problems.last().1 == problem_views(read.face->Err_0@)
        },
{
    let after = with_builtin(r, read);
    if after.faces.len() > r.faces.len() {
        assert(after.faces.drop_last() =~= r.faces);
    } else {
        assert(after.problems.drop_last() =~= r.problems);
    }
}

/// Faces are read one after the other: those of the program first, in their order, and then those
/// of the user, in theirs.
pub proof fn law_faces_are_read_in_order(base: RegistryView, read: Seq<ReadFace>, last: ReadFace)
    ensures
        builtin_registry(Seq::<ReadFace>::empty()).faces.len() == 0,
        builtin_registry(Seq::<ReadFace>::empty()).problems.len() == 0,
        builtin_registry(read.push(last)) == with_builtin(builtin_registry(read), last),
        user_registry(base, Seq::<ReadFace>::empty()) == base,
        user_registry(base, read.push(last)) == with_user(user_registry(base, read), last),
{
    assert(read.push(last).drop_last() =~= read);
}

/// The faces of the program, and the one that is used where nothing is chosen.
pub proof fn law_the_faces_of_the_program()
    ensures
        builtin_names() == seq!["egg"@, "round"@, "squircle"@, "bean"@],
        DEFAULT_FACE_ID@ == "egg"@,
{
}

/// A user's face stands in a TOML file; templates, whose names begin with an underscore, are none.
pub proof fn law_which_files_hold_faces(stem: Seq<char>, name: Seq<char>)
    ensures
        stem.len() > 0 && stem[0] != '_' ==> is_face_file(stem + ".toml"@),
        is_face_file(name) ==> name[0] != '_' && name.len() > 5 && name.skip(name.len() - 5)
            == ".toml"@,
{
    reveal_strlit(".toml");
    assert((stem + ".toml"@).skip(stem.len() as int) =~= ".toml"@);
}

} // verus!
