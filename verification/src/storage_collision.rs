//! Finds storage keys that the same contract uses more than once within one
//! Soroban storage type (instance, persistent, temporary, or unknown).
use vstd::prelude::*;
use crate::syntax::model::{ExprKind, ExprNode, LitValue, SourceFile};
use crate::syntax::parse::{parse_rust_source, parse_source};
use crate::syntax::visit::{Visited, visit_file, visit_source_file};
use crate::rules::auth_gap::path_last_ident;
use crate::text::{decimal, eq_str, push_decimal, trim_char, trim_quotes};

verus! {

/// The Soroban storage type that a storage call goes through.
#[derive(Clone, Copy, Debug, PartialEq, Eq, Structural)]
pub enum SorobanStorageType {
    Instance,
    Persistent,
    Temporary,
    Unknown,
}

/// The lower-case name of a storage type.
pub open spec fn storage_type_name(t: SorobanStorageType) -> Seq<char> {
    match t {
        SorobanStorageType::Instance => "instance"@,
        SorobanStorageType::Persistent => "persistent"@,
        SorobanStorageType::Temporary => "temporary"@,
        SorobanStorageType::Unknown => "unknown"@,
    }
}

impl SorobanStorageType {
    /// The lower-case name of the storage type.
    pub fn as_str(self) -> (r: &'static str)
        ensures
            r@ == storage_type_name(self),
    {
        match self {
            SorobanStorageType::Instance => "instance",
            SorobanStorageType::Persistent => "persistent",
            SorobanStorageType::Temporary => "temporary",
            SorobanStorageType::Unknown => "unknown",
        }
    }
}

/// A storage key value used in more than one place within one storage type.
#[derive(Debug)]
pub struct StorageCollisionIssue {
    pub key_value: String,
    pub key_type: String,
    pub location: String,
    pub message: String,
}

/// A collision report as text.
pub struct CollisionView {
    pub key_value: Seq<char>,
    pub key_type: Seq<char>,
    pub location: Seq<char>,
    pub message: Seq<char>,
}

impl View for StorageCollisionIssue {
    type V = CollisionView;

    open spec fn view(&self) -> CollisionView {
        CollisionView {
            key_value: self.key_value@,
            key_type: self.key_type@,
            location: self.location@,
            message: self.message@,
        }
    }
}

/// The reports in `v`, each as text.
pub open spec fn collisions_view(v: Seq<StorageCollisionIssue>) -> Seq<CollisionView> {
    v.map_values(|c: StorageCollisionIssue| c@)
}

/// One use of a key: how it was written, where, and on which line.
pub struct KeyInfo {
    pub key_type: String,
    pub location: String,
    pub line: usize,
}

/// A use of a key as text.
pub struct KeyInfoView {
    pub key_type: Seq<char>,
    pub location: Seq<char>,
    pub line: nat,
}

impl View for KeyInfo {
    type V = KeyInfoView;

    open spec fn view(&self) -> KeyInfoView {
        KeyInfoView { key_type: self.key_type@, location: self.location@, line: self.line as nat }
    }
}

/// All uses of one key value within one storage type, in the order they were met.
pub struct KeyGroup {
    pub storage_type: SorobanStorageType,
    pub value: String,
    pub infos: Vec<KeyInfo>,
}

/// A group of uses as text.
pub struct KeyGroupView {
    pub storage_type: SorobanStorageType,
    pub value: Seq<char>,
    pub infos: Seq<KeyInfoView>,
}

impl View for KeyGroup {
    type V = KeyGroupView;

    open spec fn view(&self) -> KeyGroupView {
        KeyGroupView {
            storage_type: self.storage_type,
            value: self.value@,
            infos: self.infos@.map_values(|i: KeyInfo| i@),
        }
    }
}

/// The groups in `v`, each as text.
pub open spec fn groups_view(v: Seq<KeyGroup>) -> Seq<KeyGroupView> {
    v.map_values(|g: KeyGroup| g@)
}

/// Each (storage type, value) has at most one group.
pub open spec fn groups_distinct(groups: Seq<KeyGroupView>) -> bool {
    forall|i: int, j: int|
        0 <= i < j < groups.len() ==> !(#[trigger] groups[i].storage_type == #[trigger] groups[j].storage_type
            && groups[i].value == groups[j].value)
}

/// The position of the group for (`t`, `v`), or `-1` if there is none.
pub open spec fn group_index(groups: Seq<KeyGroupView>, t: SorobanStorageType, v: Seq<char>) -> int
    decreases groups.len(),
{
    if groups.len() == 0 {
        -1
    } else if groups.last().storage_type == t && groups.last().value == v {
        groups.len() - 1
    } else {
        group_index(groups.drop_last(), t, v)
    }
}

/// The groups after one more use `info` of the key value `v` in storage type `t`:
/// appended to its group, or a new group at the end.
pub open spec fn add_key_spec(groups: Seq<KeyGroupView>, t: SorobanStorageType, v: Seq<char>, info: KeyInfoView) -> Seq<KeyGroupView> {
    let idx = group_index(groups, t, v);
    if idx >= 0 {
        groups.update(idx, KeyGroupView { infos: groups[idx].infos.push(info), ..groups[idx] })
    } else {
        groups.push(KeyGroupView { storage_type: t, value: v, infos: seq![info] })
    }
}

/// `items` joined with `", "`.
pub open spec fn join_comma(items: Seq<Seq<char>>) -> Seq<char>
    decreases items.len(),
{
    if items.len() == 0 {
        Seq::empty()
    } else if items.len() == 1 {
        items[0]
    } else {
        join_comma(items.drop_last()) + ", "@ + items.last()
    }
}

/// A use as listed among the others: `location (line n)`.
pub open spec fn use_text(info: KeyInfoView) -> Seq<char> {
    info.location + " (line "@ + decimal(info.line) + ")"@
}

/// The uses of `infos` other than the `i`-th, as listed in a report.
pub open spec fn other_uses(infos: Seq<KeyInfoView>, i: int) -> Seq<Seq<char>> {
    infos.remove(i).map_values(|x: KeyInfoView| use_text(x))
}

/// The report for the `i`-th use of a shared key.
pub open spec fn collision_report(g: KeyGroupView, i: int) -> CollisionView {
    let name = storage_type_name(g.storage_type);
    CollisionView {
        key_value: g.value,
        key_type: g.infos[i].key_type + " ("@ + name + ")"@,
        location: g.infos[i].location + ":"@ + decimal(g.infos[i].line),
        message: "Potential "@ + name + " storage key collision: value '"@ + g.value + "' is also used in: "@
            + join_comma(other_uses(g.infos, i)),
    }
}

/// The reports for one group: one per use when the key is used more than once.
pub open spec fn group_reports(g: KeyGroupView) -> Seq<CollisionView> {
    if g.infos.len() > 1 {
        Seq::new(g.infos.len(), |i: int| collision_report(g, i))
    } else {
        Seq::empty()
    }
}

/// The reports for all groups, group after group.
pub open spec fn collision_reports(groups: Seq<KeyGroupView>) -> Seq<CollisionView>
    decreases groups.len(),
{
    if groups.len() == 0 {
        Seq::empty()
    } else {
        collision_reports(groups.drop_last()) + group_reports(groups.last())
    }
}

/// The storage type of the handle a storage call goes through: the nearest
/// `instance()`, `persistent()` or `temporary()` call down the receiver chain,
/// looking through references and parentheses.
pub open spec fn storage_type_of(e: ExprNode) -> SorobanStorageType
    decreases e,
{
    match e.kind {
        ExprKind::MethodCall { receiver, method, .. } => if method@ == "instance"@ {
            SorobanStorageType::Instance
        } else if method@ == "persistent"@ {
            SorobanStorageType::Persistent
        } else if method@ == "temporary"@ {
            SorobanStorageType::Temporary
        } else {
            storage_type_of(*receiver)
        },
        ExprKind::Reference(x) => storage_type_of(*x),
        ExprKind::Paren(x) => storage_type_of(*x),
        _ => SorobanStorageType::Unknown,
    }
}

/// The value a key expression stands for: a literal's value (digits for integers,
/// `true`/`false`), or the token text of a path, call, method call or macro,
/// looking through references and parentheses.
pub open spec fn key_value_of(e: ExprNode) -> Option<Seq<char>>
    decreases e,
{
    match e.kind {
        ExprKind::Lit(LitValue::Str(s)) => Some(s@),
        ExprKind::Lit(LitValue::Int(d)) => Some(d@),
        ExprKind::Lit(LitValue::Bool(b)) => Some(if b { "true"@ } else { "false"@ }),
        ExprKind::Lit(LitValue::Other) => None,
        ExprKind::Path(_) => Some(e.text@),
        ExprKind::Reference(x) => key_value_of(*x),
        ExprKind::Paren(x) => key_value_of(*x),
        ExprKind::Call { .. } => Some(e.text@),
        ExprKind::MethodCall { .. } => Some(e.text@),
        ExprKind::Macro { .. } => Some(e.text@),
        _ => None,
    }
}

/// Whether a method name is a storage operation.
pub open spec fn is_storage_op(m: Seq<char>) -> bool {
    m == "get"@ || m == "set"@ || m == "has"@ || m == "remove"@ || m == "update"@ || m == "try_update"@
}

/// The key use that a visited node records, if any: string constants,
/// `Symbol::new(_, "...")`, `symbol_short!(...)`, and the first argument of a
/// storage operation.
pub open spec fn node_key<'a>(node: Visited<'a>) -> Option<(SorobanStorageType, Seq<char>, KeyInfoView)> {
    match node {
        Visited::Const { name, expr, line } => match &expr.kind {
            ExprKind::Lit(LitValue::Str(s)) => Some((
                SorobanStorageType::Unknown,
                s@,
                KeyInfoView { key_type: "const"@, location: name@, line: line as nat },
            )),
            _ => None,
        },
        Visited::Expr { expr, .. } => match &expr.kind {
            ExprKind::Call { func, args } => match &func.kind {
                ExprKind::Path(p) => if p.segments@.len() >= 2 && p.segments@[0].ident@ == "Symbol"@
                    && p.segments@[1].ident@ == "new"@ && args@.len() >= 2 {
                    match &args@[1].kind {
                        ExprKind::Lit(LitValue::Str(s)) => Some((
                            SorobanStorageType::Unknown,
                            s@,
                            KeyInfoView { key_type: "Symbol::new"@, location: "inline"@, line: expr.line as nat },
                        )),
                        _ => None,
                    }
                } else {
                    None
                },
                _ => None,
            },
            ExprKind::Macro { path, tokens } => if (match path_last_ident(*path) {
                Some(n) => n,
                None => Seq::empty(),
            }) == "symbol_short"@ {
                Some((
                    SorobanStorageType::Unknown,
                    trim_char(tokens@, '"'),
                    KeyInfoView { key_type: "symbol_short!"@, location: "inline"@, line: expr.line as nat },
                ))
            } else {
                None
            },
            ExprKind::MethodCall { receiver, method, args, .. } => if is_storage_op(method@) && args@.len() > 0 {
                match key_value_of(args@[0]) {
                    Some(kv) => Some((
                        storage_type_of(**receiver),
                        kv,
                        KeyInfoView { key_type: "storage::"@ + method@, location: "storage-op"@, line: expr.line as nat },
                    )),
                    None => None,
                }
            } else {
                None
            },
            _ => None,
        },
        _ => None,
    }
}

/// The groups after the key uses recorded by `nodes`, starting from `groups`.
pub open spec fn groups_after<'a>(groups: Seq<KeyGroupView>, nodes: Seq<Visited<'a>>) -> Seq<KeyGroupView>
    decreases nodes.len(),
{
    if nodes.len() == 0 {
        groups
    } else {
        let before = groups_after(groups, nodes.drop_last());
        match node_key(nodes.last()) {
            Some((t, v, info)) => add_key_spec(before, t, v, info),
            None => before,
        }
    }
}

/// The storage type of the handle that `e` goes through.
fn parse_storage_type_from_expr(e: &ExprNode) -> (r: SorobanStorageType)
    ensures
        r == storage_type_of(*e),
    decreases e,
{
    match &e.kind {
        ExprKind::MethodCall { receiver, method, .. } => {
            if eq_str(method, "instance") {
                SorobanStorageType::Instance
            } else if eq_str(method, "persistent") {
                SorobanStorageType::Persistent
            } else if eq_str(method, "temporary") {
                SorobanStorageType::Temporary
            } else {
                proof { assert(decreases_to!(*e => e.kind)); assert(decreases_to!(e.kind => e.kind->receiver)); }
                parse_storage_type_from_expr(receiver)
            }
        },
        ExprKind::Reference(x) => {
            proof { assert(decreases_to!(*e => e.kind)); assert(decreases_to!(e.kind => e.kind->Reference_0)); }
            parse_storage_type_from_expr(x)
        },
        ExprKind::Paren(x) => {
            proof { assert(decreases_to!(*e => e.kind)); assert(decreases_to!(e.kind => e.kind->Paren_0)); }
            parse_storage_type_from_expr(x)
        },
        _ => SorobanStorageType::Unknown,
    }
}

/// The value that a key expression stands for.
fn extract_key_value_expr(e: &ExprNode) -> (r: Option<String>)
    ensures
        match r {
            Some(s) => key_value_of(*e) == Some(s@),
            None => key_value_of(*e) is None,
        },
    decreases e,
{
    match &e.kind {
        ExprKind::Lit(LitValue::Str(s)) => Some(s.clone()),
        ExprKind::Lit(LitValue::Int(d)) => Some(d.clone()),
        ExprKind::Lit(LitValue::Bool(b)) => Some(String::from_str(if *b { "true" } else { "false" })),
        ExprKind::Lit(LitValue::Other) => None,
        ExprKind::Path(_) => Some(e.text.clone()),
        ExprKind::Reference(x) => {
            proof { assert(decreases_to!(*e => e.kind)); assert(decreases_to!(e.kind => e.kind->Reference_0)); }
            extract_key_value_expr(x)
        },
        ExprKind::Paren(x) => {
            proof { assert(decreases_to!(*e => e.kind)); assert(decreases_to!(e.kind => e.kind->Paren_0)); }
            extract_key_value_expr(x)
        },
        ExprKind::Call { .. } => Some(e.text.clone()),
        ExprKind::MethodCall { .. } => Some(e.text.clone()),
        ExprKind::Macro { .. } => Some(e.text.clone()),
        _ => None,
    }
}

/// Whether `m` is a storage operation.
fn storage_op(m: &String) -> (r: bool)
    ensures
        r == is_storage_op(m@),
{
    eq_str(m, "get") || eq_str(m, "set") || eq_str(m, "has") || eq_str(m, "remove") || eq_str(m, "update")
        || eq_str(m, "try_update")
}

/// A use of a key, as text.
fn key_info(key_type: String, location: String, line: usize) -> (r: KeyInfo)
    ensures
        r@ == (KeyInfoView { key_type: key_type@, location: location@, line: line as nat }),
{
    KeyInfo { key_type, location, line }
}

/// The key use that a visited node records, if any.
fn key_of_node(node: &Visited) -> (r: Option<(SorobanStorageType, String, KeyInfo)>)
    ensures
        match r {
            Some((t, v, info)) => node_key(*node) == Some((t, v@, info@)),
            None => node_key(*node) is None,
        },
{
    match node {
        Visited::Const { name, expr, line } => match &expr.kind {
            ExprKind::Lit(LitValue::Str(s)) => {
                let r = (SorobanStorageType::Unknown, s.clone(), key_info(String::from_str("const"), (*name).clone(), *line));
                                Some(r)
            },
            _ => None,
        },
        Visited::Expr { expr, .. } => match &expr.kind {
            ExprKind::Call { func, args } => match &func.kind {
                ExprKind::Path(p) => {
                    if p.segments.len() >= 2 && eq_str(&p.segments[0].ident, "Symbol")
                        && eq_str(&p.segments[1].ident, "new") && args.len() >= 2 {
                        match &args[1].kind {
                            ExprKind::Lit(LitValue::Str(s)) => {
                                let r = (SorobanStorageType::Unknown, s.clone(), key_info(String::from_str("Symbol::new"), String::from_str("inline"), expr.line));
                                                                Some(r)
                            },
                            _ => None,
                        }
                    } else {
                        None
                    }
                },
                _ => None,
            },
            ExprKind::Macro { path, tokens } => {
                let n = path.segments.len();
                let is_symbol_short = if n > 0 {
                    eq_str(&path.segments[n - 1].ident, "symbol_short")
                } else {
                    false
                };
                if is_symbol_short {
                    let r = (SorobanStorageType::Unknown, trim_quotes(tokens.as_str()), key_info(String::from_str("symbol_short!"), String::from_str("inline"), expr.line));
                                        Some(r)
                } else {
                    proof {
                        reveal_strlit("symbol_short");
                        assert(Seq::<char>::empty().len() != "symbol_short"@.len());
                    }
                    None
                }
            },
            ExprKind::MethodCall { receiver, method, args, .. } => {
                if storage_op(method) && args.len() > 0 {
                    match extract_key_value_expr(&args[0]) {
                        Some(kv) => {
                            let mut key_type = String::from_str("storage::");
                            key_type.append(method.as_str());
                            let r = (parse_storage_type_from_expr(receiver), kv, key_info(key_type, String::from_str("storage-op"), expr.line));
                                                        Some(r)
                        },
                        None => None,
                    }
                } else {
                    None
                }
            },
            _ => None,
        },
        _ => None,
    }
}

/// The uses of each key `i` in `infos`, but for the `i`-th, each as listed.
fn other_uses_text(infos: &Vec<KeyInfo>, i: usize) -> (r: String)
    requires
        i < infos@.len(),
    ensures
        r@ == join_comma(other_uses(infos@.map_values(|x: KeyInfo| x@), i as int)),
{
    let ghost views = infos@.map_values(|x: KeyInfo| x@);
    let ghost others = other_uses(views, i as int);
    let mut text = String::new();
    let mut count: usize = 0;
    let mut j: usize = 0;
    while j < infos.len()
        invariant
            i < infos@.len(),
            j <= infos@.len(),
            views == infos@.map_values(|x: KeyInfo| x@),
            others == other_uses(views, i as int),
            count == (if j <= i { j as int } else { j - 1 }),
            text@ == join_comma(others.subrange(0, count as int)),
        decreases infos@.len() - j,
    {
        if j != i {
            let ghost prev = text@;
            if count > 0 {
                text.append(", ");
            }
            text.append(infos[j].location.as_str());
            text.append(" (line ");
            push_decimal(&mut text, infos[j].line);
            text.append(")");
            proof {
                let k = count as int;
                assert(others[k] == use_text(views[j as int])) by {
                    assert(views.remove(i as int)[k] == views[j as int]);
                }
                assert(others.subrange(0, k + 1).drop_last() =~= others.subrange(0, k));
                assert(others.subrange(0, k + 1).last() == others[k]);
                if k == 0 {
                    assert(text@ =~= join_comma(others.subrange(0, k + 1)));
                } else {
                    assert(text@ =~= join_comma(others.subrange(0, k + 1)));
                }
            }
            count = count + 1;
        }
        j = j + 1;
    }
    proof {
        assert(others.subrange(0, count as int) =~= others);
    }
    text
}

/// Walks a file's syntax tree to record storage key uses, then reports the
/// keys used more than once within one storage type.
pub struct StorageVisitor {
    pub collisions: Vec<StorageCollisionIssue>,
    keys: Vec<KeyGroup>,
}

impl StorageVisitor {
    /// The key uses recorded so far, grouped by storage type and value.
    pub closed spec fn keys(&self) -> Seq<KeyGroupView> {
        groups_view(self.keys@)
    }

    /// The reports made so far, in order.
    pub closed spec fn reported(&self) -> Seq<CollisionView> {
        collisions_view(self.collisions@)
    }

    /// A visitor with nothing recorded or reported.
    pub fn new() -> (r: Self)
        ensures
            r.reported() == Seq::<CollisionView>::empty(),
            r.keys() == Seq::<KeyGroupView>::empty(),
    {
        let r = StorageVisitor { collisions: Vec::new(), keys: Vec::new() };
        proof {
            assert(r.reported() =~= Seq::<CollisionView>::empty());
        }
        r
    }

    /// Records one more use of the key `value` in storage type `storage_type`.
    fn add_key(&mut self, value: String, key_type: String, storage_type: SorobanStorageType, location: String, line: usize)
        ensures
            final(self).keys() == add_key_spec(
                old(self).keys(),
                storage_type,
                value@,
                KeyInfoView { key_type: key_type@, location: location@, line: line as nat },
            ),
            final(self).reported() == old(self).reported(),
    {
        let info = KeyInfo { key_type, location, line };
        self.add_info(value, storage_type, info);
    }

    /// Records the use `info` of the key `value` in storage type `storage_type`.
    fn add_info(&mut self, value: String, storage_type: SorobanStorageType, info: KeyInfo)
        ensures
            final(self).keys() == add_key_spec(old(self).keys(), storage_type, value@, info@),
            final(self).reported() == old(self).reported(),
    {
        let ghost groups = old(self).keys();
        let mut idx: usize = self.keys.len();
        let mut found = false;
        proof {
            assert(groups.subrange(0, idx as int) =~= groups);
        }
        while idx > 0 && !found
            invariant
                idx <= self.keys@.len(),
                groups == groups_view(self.keys@),
                self.keys@ == old(self).keys@,
                self.collisions@ == old(self).collisions@,
                found ==> idx > 0 && groups[idx - 1].storage_type == storage_type && groups[idx - 1].value == value@,
                !found ==> group_index(groups, storage_type, value@) == group_index(groups.subrange(0, idx as int), storage_type, value@),
                found ==> group_index(groups, storage_type, value@) == idx - 1,
            decreases 2 * idx + (if found { 0int } else { 1int }),
        {
            let g = &self.keys[idx - 1];
            if g.storage_type == storage_type && g.value == value {
                proof {
                    assert(groups.subrange(0, idx as int).last() == groups[idx - 1]);
                }
                found = true;
            } else {
                proof {
                    assert(groups.subrange(0, idx as int).drop_last() =~= groups.subrange(0, idx - 1));
                }
                idx = idx - 1;
            }
        }
        if found {
            let mut g = self.keys.remove(idx - 1);
            let ghost old_g = g@;
            g.infos.push(info);
            proof {
                assert(g@.infos =~= old_g.infos.push(info@));
            }
            self.keys.insert(idx - 1, g);
            proof {
                assert(groups_view(self.keys@) =~= add_key_spec(groups, storage_type, value@, info@));
            }
        } else {
            proof {
                assert(group_index(groups.subrange(0, 0), storage_type, value@) == -1);
            }
            let mut infos: Vec<KeyInfo> = Vec::new();
            infos.push(info);
            let g = KeyGroup { storage_type, value, infos };
            proof {
                assert(g@.infos =~= seq![info@]);
            }
            self.keys.push(g);
            proof {
                assert(groups_view(self.keys@) =~= add_key_spec(groups, storage_type, g@.value, info@));
            }
        }
    }

    /// Records the key uses of every node of `file`, in visiting order.
    pub fn visit_file(&mut self, file: &SourceFile)
        ensures
            final(self).keys() == groups_after(old(self).keys(), visit_file(file)),
            final(self).reported() == old(self).reported(),
    {
        let nodes = visit_source_file(file);
        let mut i: usize = 0;
        while i < nodes.len()
            invariant
                i <= nodes@.len(),
                nodes@ == visit_file(file),
                self.keys() == groups_after(old(self).keys(), nodes@.subrange(0, i as int)),
                self.reported() == old(self).reported(),
            decreases nodes@.len() - i,
        {
            proof {
                assert(nodes@.subrange(0, i + 1).drop_last() =~= nodes@.subrange(0, i as int));
            }
            match key_of_node(&nodes[i]) {
                Some((t, v, info)) => {
                    self.add_info(v, t, info);
                },
                None => {},
            }
            i = i + 1;
        }
        proof {
            assert(nodes@.subrange(0, nodes@.len() as int) =~= nodes@);
        }
    }

    /// Appends a report for every use of every key used more than once within
    /// one storage type, group after group in the order the keys were first met.
    pub fn final_check(&mut self)
        ensures
            final(self).reported() == old(self).reported() + collision_reports(old(self).keys()),
            final(self).keys() == old(self).keys(),
    {
        let ghost groups = self.keys();
        let ghost start = collisions_view(self.collisions@);
        let mut gi: usize = 0;
        while gi < self.keys.len()
            invariant
                gi <= self.keys@.len(),
                groups == groups_view(self.keys@),
                groups == old(self).keys(),
                collisions_view(self.collisions@) == start + collision_reports(groups.subrange(0, gi as int)),
            decreases self.keys@.len() - gi,
        {
            proof {
                assert(groups.subrange(0, gi + 1).drop_last() =~= groups.subrange(0, gi as int));
            }
            let ghost g = groups[gi as int];
            let ghost before = collisions_view(self.collisions@);
            let n = self.keys[gi].infos.len();
            if n > 1 {
                let mut i: usize = 0;
                while i < n
                    invariant
                        gi < self.keys@.len(),
                        groups == groups_view(self.keys@),
                        g == groups[gi as int],
                        n == g.infos.len(),
                        n > 1,
                        i <= n,
                        collisions_view(self.collisions@) == before + Seq::new(i as nat, |k: int| collision_report(g, k)),
                    decreases n - i,
                {
                    let report = self.report(gi, i);
                    let ghost prev = self.collisions@;
                    self.collisions.push(report);
                    proof {
                        assert(collisions_view(self.collisions@) =~= collisions_view(prev).push(report@));
                        assert(collisions_view(self.collisions@) =~= before + Seq::new((i + 1) as nat, |k: int| collision_report(g, k)));
                    }
                    i = i + 1;
                }
                proof {
                    assert(Seq::new(n as nat, |k: int| collision_report(g, k)) =~= group_reports(g));
                }
            } else {
                proof {
                    assert(group_reports(g) =~= Seq::<CollisionView>::empty());
                    assert(collisions_view(self.collisions@) =~= before + group_reports(g));
                }
            }
            proof {
                assert(collisions_view(self.collisions@) =~= start + collision_reports(groups.subrange(0, gi + 1)));
            }
            gi = gi + 1;
        }
        proof {
            assert(groups.subrange(0, groups.len() as int) =~= groups);
        }
    }

    /// The report for the `i`-th use in the `gi`-th group.
    fn report(&self, gi: usize, i: usize) -> (r: StorageCollisionIssue)
        requires
            gi < self.keys@.len(),
            i < self.keys@[gi as int].infos@.len(),
        ensures
            r@ == collision_report(self.keys()[gi as int], i as int),
    {
        let g = &self.keys[gi];
        let info = &g.infos[i];
        let name = g.storage_type.as_str();
        let mut key_type = info.key_type.clone();
        key_type.append(" (");
        key_type.append(name);
        key_type.append(")");
        let mut location = info.location.clone();
        location.append(":");
        push_decimal(&mut location, info.line);
        let mut message = String::from_str("Potential ");
        message.append(name);
        message.append(" storage key collision: value '");
        message.append(g.value.as_str());
        message.append("' is also used in: ");
        let others = other_uses_text(&g.infos, i);
        message.append(others.as_str());
        StorageCollisionIssue { key_value: g.value.clone(), key_type, location, message }
    }
}

/// The reports for a parsed file.
pub open spec fn file_collision_reports(file: SourceFile) -> Seq<CollisionView> {
    collision_reports(groups_after(Seq::empty(), visit_file(&file)))
}

/// Parses `source`, records its storage key uses and returns the collisions;
/// nothing for text that does not parse.
pub fn scan_storage_collisions(source: &str) -> (r: Vec<StorageCollisionIssue>)
    ensures
        collisions_view(r@) == match parse_rust_source(source@) {
            Some(file) => file_collision_reports(file),
            None => Seq::empty(),
        },
{
    match parse_source(source) {
        Some(file) => {
            let mut visitor = StorageVisitor::new();
            visitor.visit_file(&file);
            visitor.final_check();
            let ghost reports = visitor.reported();
            let collisions = visitor.collisions;
            proof {
                assert(collisions_view(collisions@) == reports);
            }
            collisions
        },
        None => Vec::new(),
    }
}

/// The uses of the key value `v` in storage type `t` that `nodes` record, in order.
pub open spec fn key_uses<'a>(nodes: Seq<Visited<'a>>, t: SorobanStorageType, v: Seq<char>) -> Seq<KeyInfoView>
    decreases nodes.len(),
{
    if nodes.len() == 0 {
        Seq::empty()
    } else {
        key_uses(nodes.drop_last(), t, v) + match node_key(nodes.last()) {
            Some((t2, v2, info)) => if t2 == t && v2 == v {
                seq![info]
            } else {
                Seq::empty()
            },
            None => Seq::empty(),
        }
    }
}

proof fn lemma_group_index(groups: Seq<KeyGroupView>, t: SorobanStorageType, v: Seq<char>)
    ensures
        -1 <= group_index(groups, t, v) < groups.len(),
        group_index(groups, t, v) >= 0 ==> groups[group_index(groups, t, v)].storage_type == t
            && groups[group_index(groups, t, v)].value == v,
        group_index(groups, t, v) == -1 ==> forall|i: int|
            0 <= i < groups.len() ==> !(#[trigger] groups[i].storage_type == t && groups[i].value == v),
    decreases groups.len(),
{
    if groups.len() > 0 {
        lemma_group_index(groups.drop_last(), t, v);
        if !(groups.last().storage_type == t && groups.last().value == v) {
            assert forall|i: int| 0 <= i < groups.len() - 1 implies #[trigger] groups[i] == groups.drop_last()[i] by {}
        }
    }
}

/// Grouping is exact: starting from no groups, after the key uses of `nodes`
/// every (storage type, value) has at most one group, each group holds exactly
/// the uses of its value in its storage type, in order, and every used key has a
/// group.  So a collision is reported exactly for a key used more than once
/// within one storage type, and reusing a value across storage types is never
/// reported.
pub proof fn lemma_grouping_exact<'a>(nodes: Seq<Visited<'a>>)
    ensures
        groups_distinct(groups_after(Seq::empty(), nodes)),
        forall|i: int| 0 <= i < groups_after(Seq::empty(), nodes).len() ==> (#[trigger] groups_after(Seq::empty(), nodes)[i]).infos
            == key_uses(nodes, groups_after(Seq::empty(), nodes)[i].storage_type, groups_after(Seq::empty(), nodes)[i].value),
        forall|t: SorobanStorageType, v: Seq<char>| #[trigger] key_uses(nodes, t, v).len() > 0
            ==> group_index(groups_after(Seq::empty(), nodes), t, v) >= 0,
    decreases nodes.len(),
{
    if nodes.len() > 0 {
        let prev = nodes.drop_last();
        lemma_grouping_exact(prev);
        let g0 = groups_after(Seq::empty(), prev);
        let g1 = groups_after(Seq::empty(), nodes);
        match node_key(nodes.last()) {
            Some((t0, v0, info)) => {
                lemma_group_index(g0, t0, v0);
                let idx = group_index(g0, t0, v0);
                if idx >= 0 {
                    assert forall|i: int| 0 <= i < g1.len() implies (#[trigger] g1[i]).infos
                        == key_uses(nodes, g1[i].storage_type, g1[i].value) by {
                        if i != idx {
                            assert(g1[i] == g0[i]);
                            assert(!(g0[i].storage_type == t0 && g0[i].value == v0)) by {
                                if i < idx {
                                    assert(!(g0[i].storage_type == g0[idx].storage_type && g0[i].value == g0[idx].value));
                                } else {
                                    assert(!(g0[idx].storage_type == g0[i].storage_type && g0[idx].value == g0[i].value));
                                }
                            }
                        }
                    }
                    assert forall|t: SorobanStorageType, v: Seq<char>| #[trigger] key_uses(nodes, t, v).len() > 0
                        implies group_index(g1, t, v) >= 0 by {
                        lemma_group_index(g1, t, v);
                        if key_uses(prev, t, v).len() > 0 {
                            lemma_group_index(g0, t, v);
                            let j = group_index(g0, t, v);
                            assert(g1[j].storage_type == t && g1[j].value == v);
                        } else {
                            assert(g1[idx].storage_type == t && g1[idx].value == v);
                        }
                    }
                    assert forall|i: int, j: int| 0 <= i < j < g1.len() implies !(#[trigger] g1[i].storage_type
                        == #[trigger] g1[j].storage_type && g1[i].value == g1[j].value) by {
                        assert(g1[i].storage_type == g0[i].storage_type && g1[i].value == g0[i].value);
                        assert(g1[j].storage_type == g0[j].storage_type && g1[j].value == g0[j].value);
                    }
                } else {
                    assert(key_uses(prev, t0, v0).len() == 0);
                    assert forall|i: int| 0 <= i < g1.len() implies (#[trigger] g1[i]).infos
                        == key_uses(nodes, g1[i].storage_type, g1[i].value) by {
                        if i < g0.len() {
                            assert(g1[i] == g0[i]);
                            assert(!(g0[i].storage_type == t0 && g0[i].value == v0));
                        } else {
                            assert(key_uses(prev, t0, v0) =~= Seq::<KeyInfoView>::empty());
                            assert(key_uses(nodes, t0, v0) =~= seq![info]);
                        }
                    }
                    assert forall|t: SorobanStorageType, v: Seq<char>| #[trigger] key_uses(nodes, t, v).len() > 0
                        implies group_index(g1, t, v) >= 0 by {
                        lemma_group_index(g1, t, v);
                        if key_uses(prev, t, v).len() > 0 {
                            lemma_group_index(g0, t, v);
                            let j = group_index(g0, t, v);
                            assert(g1[j].storage_type == t && g1[j].value == v);
                        } else {
                            assert(g1[g0.len() as int].storage_type == t && g1[g0.len() as int].value == v);
                        }
                    }
                    assert forall|i: int, j: int| 0 <= i < j < g1.len() implies !(#[trigger] g1[i].storage_type
                        == #[trigger] g1[j].storage_type && g1[i].value == g1[j].value) by {
                        if j == g0.len() {
                            assert(!(g0[i].storage_type == t0 && g0[i].value == v0));
                        } else {
                            assert(g1[i] == g0[i] && g1[j] == g0[j]);
                        }
                    }
                }
            },
            None => {
                assert forall|t: SorobanStorageType, v: Seq<char>| #[trigger] key_uses(nodes, t, v).len() > 0
                    implies group_index(g1, t, v) >= 0 by {
                    assert(key_uses(nodes, t, v) =~= key_uses(prev, t, v));
                }
                assert forall|i: int| 0 <= i < g1.len() implies (#[trigger] g1[i]).infos
                    == key_uses(nodes, g1[i].storage_type, g1[i].value) by {
                    assert(key_uses(nodes, g1[i].storage_type, g1[i].value) =~= key_uses(prev, g1[i].storage_type, g1[i].value));
                }
            },
        }
    }
}

/// A storage operation (`get`, `set`, `has`, `remove`, `update`, `try_update`)
/// whose receiver is a call of `instance()`, `persistent()` or `temporary()`
/// records its key under that storage and no other: instance storage under
/// `Instance`, persistent under `Persistent`, temporary under `Temporary`.  Keys
/// are grouped by storage and value, so a key used once in instance storage and
/// once in persistent storage lands in two groups and never collides.
pub proof fn lemma_storage_op_records_its_storage<'a>(node: Visited<'a>)
    requires
        node matches Visited::Expr { expr, .. } && expr.kind matches ExprKind::MethodCall {
            receiver,
            method,
            args,
            ..
        } && (method@ == "get"@ || method@ == "set"@ || method@ == "has"@ || method@ == "remove"@
            || method@ == "update"@ || method@ == "try_update"@) && args@.len() > 0 && key_value_of(
            args@[0],
        ) is Some && receiver.kind is MethodCall,
    ensures
        ({
            let expr = node->Expr_expr;
            let receiver = expr.kind->receiver;
            let handle = receiver.kind->MethodCall_method@;
            let key = node_key(node)->Some_0;
            &&& node_key(node) is Some
            &&& key.1 == key_value_of(expr.kind->MethodCall_args@[0])->Some_0
            &&& handle == "instance"@ ==> key.0 == SorobanStorageType::Instance
            &&& handle == "persistent"@ ==> key.0 == SorobanStorageType::Persistent
            &&& handle == "temporary"@ ==> key.0 == SorobanStorageType::Temporary
        }),
{
    match node {
        Visited::Expr { expr, .. } => match &expr.kind {
            ExprKind::MethodCall { receiver, method, args, .. } => {
                assert(is_storage_op(method@));
                reveal_strlit("instance");
                reveal_strlit("persistent");
                reveal_strlit("temporary");
                assert("instance"@.len() == 8 && "persistent"@.len() == 10 && "temporary"@.len() == 9);
                assert("persistent"@ != "instance"@ && "temporary"@ != "instance"@ && "temporary"@ != "persistent"@);
                assert(storage_type_of(**receiver) == match receiver.kind {
                    ExprKind::MethodCall { receiver: inner, method: m, .. } => if m@ == "instance"@ {
                        SorobanStorageType::Instance
                    } else if m@ == "persistent"@ {
                        SorobanStorageType::Persistent
                    } else if m@ == "temporary"@ {
                        SorobanStorageType::Temporary
                    } else {
                        storage_type_of(*inner)
                    },
                    _ => SorobanStorageType::Unknown,
                });
            },
            _ => {},
        },
        _ => {},
    }
}

/// A key used only once within its storage gives no report; a key used `n > 1`
/// times gives `n` reports, one per use, each naming the key, the use's own
/// place, and the storage by its name (`instance`, `persistent`, `temporary`,
/// or `unknown` for constants and symbols).
pub proof fn lemma_reports_only_for_shared_keys(g: KeyGroupView)
    ensures
        g.infos.len() <= 1 ==> group_reports(g) == Seq::<CollisionView>::empty(),
        g.infos.len() > 1 ==> group_reports(g).len() == g.infos.len(),
        g.infos.len() > 1 ==> forall|i: int| 0 <= i < g.infos.len() ==> {
            let name = if g.storage_type == SorobanStorageType::Instance {
                "instance"@
            } else if g.storage_type == SorobanStorageType::Persistent {
                "persistent"@
            } else if g.storage_type == SorobanStorageType::Temporary {
                "temporary"@
            } else {
                "unknown"@
            };
            &&& #[trigger] group_reports(g)[i].key_value == g.value
            &&& group_reports(g)[i].location == g.infos[i].location + ":"@ + decimal(g.infos[i].line)
            &&& group_reports(g)[i].key_type == g.infos[i].key_type + " ("@ + name + ")"@
            &&& group_reports(g)[i].message == "Potential "@ + name + " storage key collision: value '"@ + g.value
                + "' is also used in: "@ + join_comma(other_uses(g.infos, i))
        },
{
}

/// A string constant records its value under the unknown storage type, as a
/// `const` use located at the constant's name and line.
pub proof fn lemma_constants_record_their_value<'a>(node: Visited<'a>)
    requires
        node matches Visited::Const { expr, .. } && expr.kind matches ExprKind::Lit(LitValue::Str(_)),
    ensures
        node_key(node) == Some((
            SorobanStorageType::Unknown,
            node->Const_expr.kind->Lit_0->Str_0@,
            KeyInfoView { key_type: "const"@, location: node->Const_name@, line: node->Const_line as nat },
        )),
{
}

/// `Symbol::new(_, "v")` records `v` under the unknown storage type, as a
/// `Symbol::new` use located `inline` at the call's line.
pub proof fn lemma_symbols_record_their_value<'a>(node: Visited<'a>)
    requires
        node matches Visited::Expr { expr, .. } && expr.kind matches ExprKind::Call { func, args }
            && func.kind matches ExprKind::Path(p) && p.segments@.len() >= 2 && p.segments@[0].ident@
            == "Symbol"@ && p.segments@[1].ident@ == "new"@ && args@.len() >= 2 && args@[1].kind is Lit
            && args@[1].kind->Lit_0 is Str,
    ensures
        node_key(node) == Some((
            SorobanStorageType::Unknown,
            node->Expr_expr.kind->Call_args@[1].kind->Lit_0->Str_0@,
            KeyInfoView { key_type: "Symbol::new"@, location: "inline"@, line: node->Expr_expr.line as nat },
        )),
{
}

} // verus!
