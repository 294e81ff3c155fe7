use vstd::prelude::*;

use crate::mod_path::{render_path, spec_render, ModPath};
use crate::syntax_tree::{
    any_encloses, find_reference_at, lemma_smallest_enclosing_exists, original_range,
    spec_find_reference_at, spec_original_range,
    NodeKind, NodeShape, SyntaxNode, SyntaxTree,
};
use crate::text_range::TextRange;

verus! {

/// How a trait method takes its receiver.
#[derive(Clone, Copy, Debug, PartialEq, Eq, Structural)]
pub enum SelfKind {
    Value,
    Ref,
    RefMut,
}

/// The shape of an unresolved reference, as the name search classifies it,
/// with the identifier that is being qualified.
#[derive(Clone, Debug)]
pub enum ImportCandidate {
    /// The unresolved first segment of a longer path.
    QualifierStart { name: String },
    /// A complete one-segment path.
    UnqualifiedName { name: String },
    /// `Type::item`, where `item` comes only from a trait implementation.
    TraitAssocItem { name: String },
    /// `receiver.method(..)`, where `method` comes only from a trait
    /// implementation; `self_kind` is how that method takes its receiver.
    TraitMethod { name: String, self_kind: SelfKind },
}

/// What the name search reports for the reference under the cursor: its
/// shape and the paths that would make it resolve, in the order in which they
/// are offered. The search reports a set: well-formed paths, in strictly
/// ascending order of their rendered text, so none occurs twice.
#[derive(Clone, Debug)]
pub struct ImportAssets {
    pub candidate: ImportCandidate,
    pub paths: Vec<ModPath>,
}

/// `a` comes before `b` in lexicographic order of code points, the order of
/// Rust's own string comparison.
pub open spec fn text_less(a: Seq<char>, b: Seq<char>) -> bool
    decreases a.len(),
{
    if a.len() == 0 {
        b.len() > 0
    } else if b.len() == 0 {
        false
    } else if a[0] != b[0] {
        (a[0] as u32) < (b[0] as u32)
    } else {
        text_less(a.drop_first(), b.drop_first())
    }
}

/// No text comes before itself.
pub proof fn lemma_text_less_irreflexive(a: Seq<char>)
    ensures
        !text_less(a, a),
    decreases a.len(),
{
    if a.len() > 0 {
        lemma_text_less_irreflexive(a.drop_first());
    }
}

impl ImportAssets {
    pub open spec fn wf(self) -> bool {
        &&& forall|i: int| 0 <= i < self.paths@.len() ==> (#[trigger] self.paths@[i]).wf()
        &&& forall|i: int, j: int|
            0 <= i < j < self.paths@.len() ==> text_less(
                spec_render(#[trigger] self.paths@[i]),
                spec_render(#[trigger] self.paths@[j]),
            )
    }
}

/// The paths of a well-formed report render to distinct texts.
pub proof fn lemma_report_paths_distinct(a: ImportAssets, i: int, j: int)
    requires
        a.wf(),
        0 <= i < a.paths@.len(),
        0 <= j < a.paths@.len(),
        i != j,
    ensures
        spec_render(a.paths@[i]) != spec_render(a.paths@[j]),
{
    if i < j {
        lemma_text_less_irreflexive(spec_render(a.paths@[i]));
    } else {
        lemma_text_less_irreflexive(spec_render(a.paths@[j]));
    }
}

/// One fix: replace the text in `target` with `replacement`.
#[derive(Clone, Debug)]
pub struct Edit {
    pub target: TextRange,
    pub replacement: String,
    pub label: String,
}

/// Alternative fixes for one reference, under one label. `id` names the
/// assist that offers them, the same for every group it makes.
#[derive(Clone, Debug)]
pub struct AssistGroup {
    pub id: String,
    pub label: String,
    pub edits: Vec<Edit>,
}

pub struct EditView {
    pub target: TextRange,
    pub replacement: Seq<char>,
    pub label: Seq<char>,
}

pub struct AssistGroupView {
    pub id: Seq<char>,
    pub label: Seq<char>,
    pub edits: Seq<EditView>,
}

impl View for Edit {
    type V = EditView;

    open spec fn view(&self) -> EditView {
        EditView { target: self.target, replacement: self.replacement@, label: self.label@ }
    }
}

impl View for AssistGroup {
    type V = AssistGroupView;

    open spec fn view(&self) -> AssistGroupView {
        AssistGroupView { id: self.id@, label: self.label@, edits: self.edits@.map_values(|e: Edit| e@) }
    }
}

impl ImportCandidate {
    /// The identifier being qualified.
    pub open spec fn spec_name(self) -> Seq<char> {
        match self {
            ImportCandidate::QualifierStart { name } => name@,
            ImportCandidate::UnqualifiedName { name } => name@,
            ImportCandidate::TraitAssocItem { name } => name@,
            ImportCandidate::TraitMethod { name, .. } => name@,
        }
    }
}

/// The identity of the groups that this assist offers.
pub open spec fn assist_id_text() -> Seq<char> {
    "qualify_path"@
}

pub open spec fn group_label_text(name: Seq<char>) -> Seq<char> {
    "Qualify "@ + name
}

/// `Qualify with `P``, and the like, for each shape.
pub open spec fn choice_label_text(c: ImportCandidate, path: Seq<char>) -> Seq<char> {
    match c {
        ImportCandidate::QualifierStart { .. } => "Qualify with `"@ + path + "`"@,
        ImportCandidate::UnqualifiedName { .. } => "Qualify as `"@ + path + "`"@,
        ImportCandidate::TraitAssocItem { .. } => "Qualify with cast as `"@ + path + "`"@,
        ImportCandidate::TraitMethod { .. } => "Qualify `"@ + path + "`"@,
    }
}

/// `P<args>`: the candidate path in place of the first segment, followed by
/// that segment's generic arguments as written.
pub open spec fn qualifier_start_text(path: Seq<char>, generic_args: Seq<char>) -> Seq<char> {
    path + generic_args
}

/// `<Type as P>::item`.
pub open spec fn trait_assoc_item_text(
    qualifier: Seq<char>,
    path: Seq<char>,
    segment: Seq<char>,
) -> Seq<char> {
    "<"@ + qualifier + " as "@ + path + ">::"@ + segment
}

pub open spec fn receiver_prefix(k: SelfKind) -> Seq<char> {
    match k {
        SelfKind::Value => ""@,
        SelfKind::Ref => "&"@,
        SelfKind::RefMut => "&mut "@,
    }
}

/// `P::method(&receiver` followed by `, ` where the call has arguments: the
/// arguments and the closing parenthesis stay in place after it.
pub open spec fn trait_method_text(
    path: Seq<char>,
    name_ref: Seq<char>,
    k: SelfKind,
    receiver: Seq<char>,
    has_args: bool,
) -> Seq<char> {
    path + "::"@ + name_ref + "("@ + receiver_prefix(k) + receiver + if has_args {
        ", "@
    } else {
        ""@
    }
}

/// The span that the fixes replace, or `None` where the node lacks a part
/// that the rewrite needs (or is not of the shape that the rewrite reads).
/// For an unresolved first segment the span is that segment's alone, so the
/// rest of the path stays as written. For a method call the span runs from the receiver through the opening
/// parenthesis of the argument list, so the arguments are left untouched.
pub open spec fn spec_target(c: ImportCandidate, n: SyntaxNode) -> Option<TextRange> {
    let r = spec_original_range(n);
    match c {
        ImportCandidate::QualifierStart { .. } => match n.shape {
            NodeShape::Path { first_segment: Some(f), .. } => if f.wf() {
                Some(f)
            } else {
                None
            },
            _ => None,
        },
        ImportCandidate::UnqualifiedName { .. } => Some(r),
        ImportCandidate::TraitAssocItem { .. } => match n.shape {
            NodeShape::Path { qualifier: Some(_), segment: Some(_), .. } => Some(r),
            _ => None,
        },
        ImportCandidate::TraitMethod { .. } => match n.shape {
            NodeShape::MethodCall {
                receiver: Some(_),
                name_ref: Some(_),
                arg_list_open: Some(open),
                ..
            } => if r.start <= open && open < u32::MAX {
                Some(TextRange { start: r.start, end: (open + 1) as u32 })
            } else {
                None
            },
            _ => None,
        },
    }
}

/// The replacement text that one candidate path gives.
pub open spec fn spec_replacement(c: ImportCandidate, n: SyntaxNode, path: Seq<char>) -> Seq<
    char,
> {
    match (c, n.shape) {
        (ImportCandidate::QualifierStart { .. }, NodeShape::Path { first_generic_args: g, .. }) => {
            qualifier_start_text(path, g@)
        },
        (ImportCandidate::UnqualifiedName { .. }, _) => path,
        (
            ImportCandidate::TraitAssocItem { .. },
            NodeShape::Path { qualifier: Some(q), segment: Some(s), .. },
        ) => trait_assoc_item_text(q@, path, s@),
        (
            ImportCandidate::TraitMethod { self_kind, .. },
            NodeShape::MethodCall { receiver: Some(rc), name_ref: Some(nr), has_args, .. },
        ) => trait_method_text(path, nr@, self_kind, rc@, has_args),
        _ => Seq::empty(),
    }
}

/// The edits of one group, one per candidate path, in the order of the paths.
pub open spec fn spec_edits(
    c: ImportCandidate,
    n: SyntaxNode,
    target: TextRange,
    paths: Seq<ModPath>,
) -> Seq<EditView> {
    Seq::new(
        paths.len(),
        |i: int|
            EditView {
                target: target,
                replacement: spec_replacement(c, n, spec_render(paths[i])),
                label: choice_label_text(c, spec_render(paths[i])),
            },
    )
}

/// The fixes for the reference under the cursor: none where there is no
/// reference there, where the name search reports nothing (the reference
/// resolves, is already imported, or sits in an import), where it proposes no
/// path, or where the node lacks a part that the rewrite needs; else one
/// group.
pub open spec fn spec_qualify_path(
    nodes: Seq<SyntaxNode>,
    offset: u32,
    assets: Option<ImportAssets>,
) -> Seq<AssistGroupView> {
    match (assets, spec_find_reference_at(nodes, offset)) {
        (Some(a), Some(i)) => if a.paths@.len() == 0 {
            Seq::empty()
        } else {
            match spec_target(a.candidate, nodes[i]) {
                Some(t) => seq![
                    AssistGroupView {
                        id: assist_id_text(),
                        label: group_label_text(a.candidate.spec_name()),
                        edits: spec_edits(a.candidate, nodes[i], t, a.paths@),
                    },
                ],
                None => Seq::empty(),
            }
        },
        _ => Seq::empty(),
    }
}

fn group_label(name: &String) -> (r: String)
    ensures
        r@ == group_label_text(name@),
{
    let mut r = String::from_str("Qualify ");
    r.append(name.as_str());
    r
}

fn quoted_label(prefix: &str, path: &String) -> (r: String)
    ensures
        r@ == prefix@ + path@ + "`"@,
{
    let mut r = String::from_str(prefix);
    r.append(path.as_str());
    r.append("`");
    r
}

/// One group for a path whose first segment is unresolved: `range` is the
/// span of that segment, and each fix puts a candidate path in its place,
/// followed by the segment's generic arguments as written. The rest of the
/// path lies outside `range` and stays as it is.
pub fn qualify_path_qualifier_start(
    paths: &Vec<ModPath>,
    range: TextRange,
    generic_args: &String,
    qualifier_start: &String,
) -> (r: AssistGroup)
    ensures
        r@.id == assist_id_text(),
        r@.label == group_label_text(qualifier_start@),
        r.edits@.len() == paths@.len(),
        forall|i: int|
            #![trigger r.edits@[i]]
            0 <= i < paths@.len() ==> r.edits@[i]@ == (EditView {
                target: range,
                replacement: qualifier_start_text(spec_render(paths@[i]), generic_args@),
                label: "Qualify with `"@ + spec_render(paths@[i]) + "`"@,
            }),
{
    let label = group_label(qualifier_start);
    let mut edits: Vec<Edit> = Vec::new();
    let mut i: usize = 0;
    while i < paths.len()
        invariant
            i <= paths@.len(),
            edits@.len() == i,
            forall|k: int|
                #![trigger edits@[k]]
                0 <= k < i ==> edits@[k]@ == (EditView {
                    target: range,
                    replacement: qualifier_start_text(spec_render(paths@[k]), generic_args@),
                    label: "Qualify with `"@ + spec_render(paths@[k]) + "`"@,
                }),
        decreases paths@.len() - i,
    {
        let path = render_path(&paths[i]);
        let mut text = path.clone();
        text.append(generic_args.as_str());
        let choice = quoted_label("Qualify with `", &path);
        edits.push(Edit { target: range, replacement: text, label: choice });
        i = i + 1;
    }
    AssistGroup { id: String::from_str("qualify_path"), label, edits }
}

/// One group for a complete one-segment path: each fix replaces it with a
/// candidate path.
pub fn qualify_path_unqualified_name(paths: &Vec<ModPath>, range: TextRange, name: &String) -> (r:
    AssistGroup)
    ensures
        r@.id == assist_id_text(),
        r@.label == group_label_text(name@),
        r.edits@.len() == paths@.len(),
        forall|i: int|
            #![trigger r.edits@[i]]
            0 <= i < paths@.len() ==> r.edits@[i]@ == (EditView {
                target: range,
                replacement: spec_render(paths@[i]),
                label: "Qualify as `"@ + spec_render(paths@[i]) + "`"@,
            }),
{
    let label = group_label(name);
    let mut edits: Vec<Edit> = Vec::new();
    let mut i: usize = 0;
    while i < paths.len()
        invariant
            i <= paths@.len(),
            edits@.len() == i,
            forall|k: int|
                #![trigger edits@[k]]
                0 <= k < i ==> edits@[k]@ == (EditView {
                    target: range,
                    replacement: spec_render(paths@[k]),
                    label: "Qualify as `"@ + spec_render(paths@[k]) + "`"@,
                }),
        decreases paths@.len() - i,
    {
        let path = render_path(&paths[i]);
        let choice = quoted_label("Qualify as `", &path);
        edits.push(Edit { target: range, replacement: path, label: choice });
        i = i + 1;
    }
    AssistGroup { id: String::from_str("qualify_path"), label, edits }
}

/// One group for `Type::item` where the item comes from a trait: each fix
/// names the trait through a cast, `<Type as P>::item`, with the type's text
/// copied as written.
pub fn qualify_path_trait_assoc_item(
    paths: &Vec<ModPath>,
    range: TextRange,
    qualifier: &String,
    segment: &String,
    trait_assoc_item_name: &String,
) -> (r: AssistGroup)
    ensures
        r@.id == assist_id_text(),
        r@.label == group_label_text(trait_assoc_item_name@),
        r.edits@.len() == paths@.len(),
        forall|i: int|
            #![trigger r.edits@[i]]
            0 <= i < paths@.len() ==> r.edits@[i]@ == (EditView {
                target: range,
                replacement: trait_assoc_item_text(qualifier@, spec_render(paths@[i]), segment@),
                label: "Qualify with cast as `"@ + spec_render(paths@[i]) + "`"@,
            }),
{
    let label = group_label(trait_assoc_item_name);
    let mut edits: Vec<Edit> = Vec::new();
    let mut i: usize = 0;
    while i < paths.len()
        invariant
            i <= paths@.len(),
            edits@.len() == i,
            forall|k: int|
                #![trigger edits@[k]]
                0 <= k < i ==> edits@[k]@ == (EditView {
                    target: range,
                    replacement: trait_assoc_item_text(
                        qualifier@,
                        spec_render(paths@[k]),
                        segment@,
                    ),
                    label: "Qualify with cast as `"@ + spec_render(paths@[k]) + "`"@,
                }),
        decreases paths@.len() - i,
    {
        let path = render_path(&paths[i]);
        let mut text = String::from_str("<");
        text.append(qualifier.as_str());
        text.append(" as ");
        text.append(path.as_str());
        text.append(">::");
        text.append(segment.as_str());
        let choice = quoted_label("Qualify with cast as `", &path);
        edits.push(Edit { target: range, replacement: text, label: choice });
        i = i + 1;
    }
    AssistGroup { id: String::from_str("qualify_path"), label, edits }
}

/// One group for `receiver.method(..)` where the method comes from a trait:
/// each fix calls it through the trait, `P::method(&receiver, ..)`, borrowing
/// the receiver as the method takes it. `range` reaches through the opening
/// parenthesis, so the arguments and the closing parenthesis stay as written.
pub fn qualify_path_trait_method(
    paths: &Vec<ModPath>,
    range: TextRange,
    receiver: &String,
    name_ref: &String,
    self_kind: SelfKind,
    has_args: bool,
    trait_method_name: &String,
) -> (r: AssistGroup)
    ensures
        r@.id == assist_id_text(),
        r@.label == group_label_text(trait_method_name@),
        r.edits@.len() == paths@.len(),
        forall|i: int|
            #![trigger r.edits@[i]]
            0 <= i < paths@.len() ==> r.edits@[i]@ == (EditView {
                target: range,
                replacement: trait_method_text(
                    spec_render(paths@[i]),
                    name_ref@,
                    self_kind,
                    receiver@,
                    has_args,
                ),
                label: "Qualify `"@ + spec_render(paths@[i]) + "`"@,
            }),
{
    let label = group_label(trait_method_name);
    let prefix: &str = match self_kind {
        SelfKind::Value => "",
        SelfKind::Ref => "&",
        SelfKind::RefMut => "&mut ",
    };
    let tail: &str = if has_args {
        ", "
    } else {
        ""
    };
    let mut edits: Vec<Edit> = Vec::new();
    let mut i: usize = 0;
    while i < paths.len()
        invariant
            i <= paths@.len(),
            edits@.len() == i,
            prefix@ == receiver_prefix(self_kind),
            tail@ == (if has_args {
                ", "@
            } else {
                ""@
            }),
            forall|k: int|
                #![trigger edits@[k]]
                0 <= k < i ==> edits@[k]@ == (EditView {
                    target: range,
                    replacement: trait_method_text(
                        spec_render(paths@[k]),
                        name_ref@,
                        self_kind,
                        receiver@,
                        has_args,
                    ),
                    label: "Qualify `"@ + spec_render(paths@[k]) + "`"@,
                }),
        decreases paths@.len() - i,
    {
        let path = render_path(&paths[i]);
        let mut text = path.clone();
        text.append("::");
        text.append(name_ref.as_str());
        text.append("(");
        text.append(prefix);
        text.append(receiver.as_str());
        text.append(tail);
        let choice = quoted_label("Qualify `", &path);
        edits.push(Edit { target: range, replacement: text, label: choice });
        i = i + 1;
    }
    AssistGroup { id: String::from_str("qualify_path"), label, edits }
}

/// Offers, for the unresolved reference under the cursor, one fix per path
/// that the name search proposes, all under one label and all replacing the
/// same span. `assets` is what the name search reports for the reference that
/// `find_reference_at` locates at `offset`; `None` where it reports that the
/// reference resolves, is already imported, or stands in an import. The
/// report is the search's set of paths, well-formed as `ImportAssets::wf`
/// says.
pub fn qualify_path(tree: &SyntaxTree, offset: u32, assets: &Option<ImportAssets>) -> (r: Vec<
    AssistGroup,
>)
    requires
        assets matches Some(a) ==> a.wf(),
    ensures
        r@.map_values(|g: AssistGroup| g@) == spec_qualify_path(tree.nodes@, offset, *assets),
{
    let a = match assets {
        Some(a) => a,
        None => return Vec::new(),
    };
    let idx = match find_reference_at(tree, offset) {
        Some(i) => i,
        None => return Vec::new(),
    };
    if a.paths.len() == 0 {
        return Vec::new();
    }
    let node = &tree.nodes[idx];
    let range = original_range(node);
    let group = match &a.candidate {
        ImportCandidate::QualifierStart { name } => match &node.shape {
            NodeShape::Path { first_segment: Some(first), first_generic_args, .. } => {
                if !(first.start <= first.end) {
                    return Vec::new();
                }
                qualify_path_qualifier_start(&a.paths, *first, first_generic_args, name)
            },
            _ => return Vec::new(),
        },
        ImportCandidate::UnqualifiedName { name } => {
            qualify_path_unqualified_name(&a.paths, range, name)
        },
        ImportCandidate::TraitAssocItem { name } => match &node.shape {
            NodeShape::Path { qualifier: Some(qualifier), segment: Some(segment), .. } => {
                qualify_path_trait_assoc_item(&a.paths, range, qualifier, segment, name)
            },
            _ => return Vec::new(),
        },
        ImportCandidate::TraitMethod { name, self_kind } => match &node.shape {
            NodeShape::MethodCall {
                receiver: Some(receiver),
                name_ref: Some(name_ref),
                arg_list_open: Some(open),
                has_args,
            } => {
                if !(range.start <= *open && *open < u32::MAX) {
                    return Vec::new();
                }
                let target = TextRange { start: range.start, end: *open + 1 };
                qualify_path_trait_method(
                    &a.paths,
                    target,
                    receiver,
                    name_ref,
                    *self_kind,
                    *has_args,
                    name,
                )
            },
            _ => return Vec::new(),
        },
    };
    let ghost t = spec_target(a.candidate, tree.nodes@[idx as int]).unwrap();
    proof {
        assert(group.edits@.map_values(|e: Edit| e@) =~= spec_edits(
            a.candidate,
            tree.nodes@[idx as int],
            t,
            a.paths@,
        ));
    }
    let mut r: Vec<AssistGroup> = Vec::new();
    r.push(group);
    proof {
        assert(r@.map_values(|g: AssistGroup| g@) =~= spec_qualify_path(
            tree.nodes@,
            offset,
            *assets,
        ));
    }
    r
}

/// Every fix within one group replaces the same span, and no group is empty.
pub proof fn lemma_group_edits_share_target(
    nodes: Seq<SyntaxNode>,
    offset: u32,
    assets: Option<ImportAssets>,
)
    ensures
        forall|g: int|
            #![trigger spec_qualify_path(nodes, offset, assets)[g]]
            0 <= g < spec_qualify_path(nodes, offset, assets).len() ==> {
                let edits = spec_qualify_path(nodes, offset, assets)[g].edits;
                &&& edits.len() > 0
                &&& forall|i: int, j: int|
                    0 <= i < edits.len() && 0 <= j < edits.len() ==> #[trigger] edits[i].target
                        == #[trigger] edits[j].target
            },
{
}

/// The same tree, offset and report always give the same groups, and within a
/// group the fixes come in the order of the proposed paths, each labelled
/// with its own path.
pub proof fn lemma_deterministic_order(
    nodes1: Seq<SyntaxNode>,
    nodes2: Seq<SyntaxNode>,
    offset: u32,
    assets: Option<ImportAssets>,
)
    requires
        nodes1 == nodes2,
    ensures
        spec_qualify_path(nodes1, offset, assets) == spec_qualify_path(nodes2, offset, assets),
        spec_qualify_path(nodes1, offset, assets).len() <= 1,
        spec_qualify_path(nodes1, offset, assets).len() == 1 ==> ({
            let a = assets.unwrap();
            let edits = spec_qualify_path(nodes1, offset, assets)[0].edits;
            &&& edits.len() == a.paths@.len()
            &&& forall|i: int|
                0 <= i < edits.len() ==> #[trigger] edits[i].label == choice_label_text(
                    a.candidate,
                    spec_render(a.paths@[i]),
                )
        }),
{
}

/// The text after replacing `target` with `replacement`.
pub open spec fn spec_apply(source: Seq<char>, target: TextRange, replacement: Seq<char>) -> Seq<
    char,
> {
    source.subrange(0, target.start as int) + replacement + source.subrange(
        target.end as int,
        source.len() as int,
    )
}

/// Applies one fix to the source text, offsets counted in characters: a
/// single-range substitution. `None` where the target does not lie within
/// the text.
pub fn apply_edit(source: &String, edit: &Edit) -> (r: Option<String>)
    ensures
        r is Some <==> (edit.target.start <= edit.target.end && edit.target.end
            <= source@.len()),
        r matches Some(t) ==> t@ == spec_apply(source@, edit.target, edit.replacement@),
{
    let s = source.as_str();
    let len = s.unicode_len();
    if !(edit.target.start <= edit.target.end && (edit.target.end as usize) <= len) {
        return None;
    }
    let mut out = String::from_str(s.substring_char(0, edit.target.start as usize));
    out.append(edit.replacement.as_str());
    out.append(s.substring_char(edit.target.end as usize, len));
    Some(out)
}

/// Applying a fix changes the text within its target only: the text before
/// the target is kept, the replacement follows it, and after that comes the
/// text that followed the target.
pub proof fn lemma_apply_replaces_only_target(
    source: Seq<char>,
    target: TextRange,
    replacement: Seq<char>,
)
    requires
        target.wf(),
        target.end <= source.len(),
    ensures
        ({
            let t = spec_apply(source, target, replacement);
            let after = target.start + replacement.len();
            &&& t.len() == source.len() - target.spec_len() + replacement.len()
            &&& t.subrange(0, target.start as int) == source.subrange(0, target.start as int)
            &&& t.subrange(target.start as int, after) == replacement
            &&& t.subrange(after, t.len() as int) == source.subrange(
                target.end as int,
                source.len() as int,
            )
        }),
{
    let t = spec_apply(source, target, replacement);
    let after = target.start + replacement.len();
    assert(t.subrange(0, target.start as int) =~= source.subrange(0, target.start as int));
    assert(t.subrange(target.start as int, after) =~= replacement);
    assert(t.subrange(after, t.len() as int) =~= source.subrange(
        target.end as int,
        source.len() as int,
    ));
}

/// Applying any fix of a group puts that fix's own candidate text, and no
/// sibling's, in place of the reference, and keeps the rest of the text.
pub proof fn lemma_applied_fix_holds_its_candidate(
    source: Seq<char>,
    nodes: Seq<SyntaxNode>,
    offset: u32,
    assets: Option<ImportAssets>,
    i: int,
)
    requires
        spec_qualify_path(nodes, offset, assets).len() == 1,
        0 <= i < spec_qualify_path(nodes, offset, assets)[0].edits.len(),
        spec_qualify_path(nodes, offset, assets)[0].edits[i].target.end <= source.len(),
    ensures
        ({
            let a = assets.unwrap();
            let e = spec_qualify_path(nodes, offset, assets)[0].edits[i];
            let n = nodes[spec_find_reference_at(nodes, offset).unwrap()];
            let t = spec_apply(source, e.target, e.replacement);
            &&& e.replacement == spec_replacement(a.candidate, n, spec_render(a.paths@[i]))
            &&& t.subrange(e.target.start as int, e.target.start + e.replacement.len())
                == e.replacement
            &&& t.subrange(0, e.target.start as int) == source.subrange(0, e.target.start as int)
        }),
{
    let e = spec_qualify_path(nodes, offset, assets)[0].edits[i];
    let k = spec_find_reference_at(nodes, offset).unwrap();
    if any_encloses(nodes, NodeKind::Path, offset) {
        lemma_smallest_enclosing_exists(nodes, NodeKind::Path, offset);
    } else {
        lemma_smallest_enclosing_exists(nodes, NodeKind::MethodCall, offset);
    }
    assert(spec_original_range(nodes[k]).wf());
    assert(e.target.wf());
    lemma_apply_replaces_only_target(source, e.target, e.replacement);
}

/// Where the search reports that the reference resolves (as it does once a
/// fix has been applied), nothing is offered, whatever the tree and offset.
pub proof fn lemma_resolved_reference_gets_no_fix(nodes: Seq<SyntaxNode>, offset: u32)
    ensures
        spec_qualify_path(nodes, offset, None).len() == 0,
{
}

/// Within a group from a well-formed report, no two fixes offer the same
/// path: their labels differ.
pub proof fn lemma_group_choices_distinct(
    nodes: Seq<SyntaxNode>,
    offset: u32,
    assets: Option<ImportAssets>,
    i: int,
    j: int,
)
    requires
        assets matches Some(a) ==> a.wf(),
        spec_qualify_path(nodes, offset, assets).len() == 1,
        0 <= i < spec_qualify_path(nodes, offset, assets)[0].edits.len(),
        0 <= j < spec_qualify_path(nodes, offset, assets)[0].edits.len(),
        i != j,
    ensures
        spec_qualify_path(nodes, offset, assets)[0].edits[i].label != spec_qualify_path(
            nodes,
            offset,
            assets,
        )[0].edits[j].label,
{
    let a = assets.unwrap();
    let pi = spec_render(a.paths@[i]);
    let pj = spec_render(a.paths@[j]);
    lemma_report_paths_distinct(a, i, j);
    let li = choice_label_text(a.candidate, pi);
    let lj = choice_label_text(a.candidate, pj);
    let pre = choice_label_text(a.candidate, Seq::empty()).drop_last();
    assert(choice_label_text(a.candidate, Seq::empty()) =~= pre + "`"@) by {
        reveal_strlit("`");
    }
    assert(li =~= pre + pi + "`"@);
    assert(lj =~= pre + pj + "`"@);
    if li == lj {
        assert(li.subrange(pre.len() as int, li.len() - 1) =~= pi);
        assert(lj.subrange(pre.len() as int, lj.len() - 1) =~= pj);
    }
}

} // verus!
