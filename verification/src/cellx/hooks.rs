//! The hooks of an op: which there are, what they see, and how they are run
//! around each other.

use crate::json::{json_print, json_tree, print_value};
use crate::names::NameMap;
use crate::path::{join, joined_path};
use crate::text::letters::{to_upper, upper_case};
use crate::text::number::{decimal, decimal_text};
use vstd::prelude::*;

verus! {

/// The hooks that are run for an op.
pub struct ResolvedHooks {
    pub pre: Vec<String>,
    pub handle: String,
    pub post: Vec<String>,
}

/// Which hooks are run.
pub struct HooksView {
    pub pre: Seq<Seq<char>>,
    pub handle: Seq<char>,
    pub post: Seq<Seq<char>>,
}

impl View for ResolvedHooks {
    type V = HooksView;

    open spec fn view(&self) -> HooksView {
        HooksView { pre: self.pre.deep_view(), handle: self.handle@, post: self.post.deep_view() }
    }
}

/// The directory of an op.
pub open spec fn op_dir_of(flow_dir: Seq<char>, op_name: Seq<char>) -> Seq<char> {
    joined_path(joined_path(flow_dir, "ops"@), op_name)
}

/// The directory of an op.
pub fn op_dir(flow_dir: &str, op_name: &str) -> (r: String)
    ensures
        r@ == op_dir_of(flow_dir@, op_name@),
{
    join(&join(flow_dir, "ops"), op_name)
}

/// Which of the scripts of an op and its flow there are.
#[derive(Clone, Copy)]
pub struct Present {
    pub op_handle: bool,
    pub flow_handle: bool,
    pub op_pre: bool,
    pub flow_pre: bool,
    pub op_post: bool,
    pub flow_post: bool,
}

/// No script handles the op: neither of these two is there.
pub struct NoHandle {
    pub op_handle: String,
    pub flow_handle: String,
}

impl NoHandle {
    /// The error in words.
    pub open spec fn words(self) -> Seq<char> {
        "no handle.sh found (checked "@ + self.op_handle@ + " and "@ + self.flow_handle@ + ")"@
    }

    /// The error in words.
    pub fn message(&self) -> (r: String)
        ensures
            r@ == self.words(),
    {
        let mut r = "no handle.sh found (checked ".to_string();
        r.append(&self.op_handle);
        r.append(" and ");
        r.append(&self.flow_handle);
        r.append(")");
        r
    }
}

/// One script where it is there.
pub open spec fn if_present(present: bool, path: Seq<char>) -> Seq<Seq<char>> {
    if present {
        seq![path]
    } else {
        Seq::<Seq<char>>::empty()
    }
}

/// The script that handles the op: its own before that of the flow.
pub open spec fn handle_of(flow_dir: Seq<char>, op_name: Seq<char>, present: Present) -> Option<
    Seq<char>,
> {
    if present.op_handle {
        Some(joined_path(op_dir_of(flow_dir, op_name), "handle.sh"@))
    } else if present.flow_handle {
        Some(joined_path(flow_dir, "handle.sh"@))
    } else {
        None
    }
}

/// The hooks before the op, that of the flow first.
pub open spec fn pre_of(flow_dir: Seq<char>, op_name: Seq<char>, present: Present) -> Seq<
    Seq<char>,
> {
    if_present(present.flow_pre, joined_path(flow_dir, "pre.sh"@)) + if_present(
        present.op_pre,
        joined_path(op_dir_of(flow_dir, op_name), "pre.sh"@),
    )
}

/// The hooks after the op, that of the op first.
pub open spec fn post_of(flow_dir: Seq<char>, op_name: Seq<char>, present: Present) -> Seq<
    Seq<char>,
> {
    if_present(present.op_post, joined_path(op_dir_of(flow_dir, op_name), "post.sh"@))
        + if_present(present.flow_post, joined_path(flow_dir, "post.sh"@))
}

fn pair(
    first_there: bool,
    first: String,
    second_there: bool,
    second: String,
) -> (r: Vec<String>)
    ensures
        r.deep_view() == if_present(first_there, first@) + if_present(second_there, second@),
{
    let mut r: Vec<String> = Vec::new();
    let ghost f = first@;
    let ghost s = second@;
    if first_there {
        r.push(first);
    }
    assert(r.deep_view() == if_present(first_there, f));
    let ghost before = r.deep_view();
    if second_there {
        r.push(second);
    }
    assert(r.deep_view() == before + if_present(second_there, s));
    r
}

/// The hooks of the op, from the scripts that there are. The op must have one
/// that handles it, or its flow must.
pub fn resolve_hooks(flow_dir: &str, op_name: &str, present: Present) -> (r: Result<
    ResolvedHooks,
    NoHandle,
>)
    ensures
        match r {
            Ok(h) => handle_of(flow_dir@, op_name@, present) == Some(h@.handle) && h@.pre == pre_of(
                flow_dir@,
                op_name@,
                present,
            ) && h@.post == post_of(flow_dir@, op_name@, present),
            Err(e) => handle_of(flow_dir@, op_name@, present) is None && e.op_handle@
                == joined_path(op_dir_of(flow_dir@, op_name@), "handle.sh"@) && e.flow_handle@
                == joined_path(flow_dir@, "handle.sh"@),
        },
{
    let dir = op_dir(flow_dir, op_name);
    let op_handle = join(&dir, "handle.sh");
    let flow_handle = join(flow_dir, "handle.sh");
    let handle = if present.op_handle {
        op_handle
    } else if present.flow_handle {
        flow_handle
    } else {
        return Err(NoHandle { op_handle, flow_handle });
    };
    let pre = pair(
        present.flow_pre,
        join(flow_dir, "pre.sh"),
        present.op_pre,
        join(&dir, "pre.sh"),
    );
    let post = pair(
        present.op_post,
        join(&dir, "post.sh"),
        present.flow_post,
        join(flow_dir, "post.sh"),
    );
    Ok(ResolvedHooks { pre, handle, post })
}

// What a hook sees

/// What all hooks of an op see.
pub struct HookScene {
    pub op_name: String,
    pub flow_name: String,
    pub flow_dir: String,
    pub state_dir: String,
    pub workspace: String,
    pub prompt: String,
    pub duration: u64,
}

/// One variable of an environment.
pub type Variable = (Seq<char>, Seq<char>);

/// The variables that every hook sees.
pub open spec fn scene_variables(scene: HookScene) -> Seq<Variable> {
    seq![
        ("FLOW_NAME"@, scene.flow_name@),
        ("FLOW_DIR"@, scene.flow_dir@),
        ("FLOW_STATE_DIR"@, scene.state_dir@),
        ("OP_NAME"@, scene.op_name@),
        ("OP_WORKSPACE"@, scene.workspace@),
        ("OP_PROMPT"@, scene.prompt@),
        ("OP_DURATION"@, decimal(scene.duration as nat)),
    ]
}

/// The variable of a parameter of the op.
pub open spec fn param_variable(params: Map<Seq<char>, Seq<char>>, name: Seq<char>) -> Variable {
    ("PARAM_"@ + upper_case(name), params[name])
}

/// The variables of the parameters, in the order `names`.
pub open spec fn param_variables(
    params: Map<Seq<char>, Seq<char>>,
    names: Seq<Seq<char>>,
) -> Seq<Variable> {
    names.map_values(|n: Seq<char>| param_variable(params, n))
}

/// `names` are the names of the map, each once.
pub open spec fn lists_names<V>(names: Seq<Seq<char>>, map: Map<Seq<char>, V>) -> bool {
    &&& names.no_duplicates()
    &&& forall|n: Seq<char>| #[trigger] names.contains(n) <==> map.dom().contains(n)
}

/// The variable of the parameters that the op before handed on.
pub open spec fn handed_on(params: Option<serde_json::Value>) -> Seq<Variable> {
    match params {
        Some(v) => seq![("OP_PARAMS"@, json_print(json_tree(v)))],
        None => Seq::<Variable>::empty(),
    }
}

/// The decimal numeral of a number that may be negative.
pub open spec fn signed(n: i32) -> Seq<char> {
    if n < 0 {
        "-"@ + decimal((-n) as nat)
    } else {
        decimal(n as nat)
    }
}

/// The decimal numeral of a number that may be negative.
pub fn signed_text(n: i32) -> (r: String)
    ensures
        r@ == signed(n),
{
    let wide: i64 = n as i64;
    if wide < 0 {
        let mut r = "-".to_string();
        r.append(&decimal_text((-wide) as u64));
        r
    } else {
        decimal_text(wide as u64)
    }
}

/// The variable of the code that the op was left with.
pub open spec fn code_variable(exit_code: Option<i32>) -> Seq<Variable> {
    match exit_code {
        Some(code) => seq![("OP_EXIT_CODE"@, signed(code))],
        None => Seq::<Variable>::empty(),
    }
}

/// The variables of a hook, those of the parameters in the order `names`.
pub open spec fn hook_variables(
    scene: HookScene,
    params: Map<Seq<char>, Seq<char>>,
    names: Seq<Seq<char>>,
    transition: Option<serde_json::Value>,
    exit_code: Option<i32>,
) -> Seq<Variable> {
    scene_variables(scene) + param_variables(params, names) + handed_on(transition)
        + code_variable(exit_code)
}

fn set(env: &mut Vec<(String, String)>, name: &str, value: &str)
    ensures
        final(env).deep_view() == old(env).deep_view().push((name@, value@)),
{
    let ghost before = env.deep_view();
    env.push((name.to_string(), value.to_string()));
    assert(env.deep_view() == before.push((name@, value@)));
}

/// The variables that a hook is run with. The parameters of the op come in
/// some order.
pub fn run_hook(
    scene: &HookScene,
    params: &NameMap<String>,
    transition: &Option<serde_json::Value>,
    exit_code: Option<i32>,
) -> (r: Vec<(String, String)>)
    ensures
        exists|names: Seq<Seq<char>>|
            lists_names(names, params.deep_view()) && r.deep_view() == #[trigger] hook_variables(
                *scene,
                params.deep_view(),
                names,
                *transition,
                exit_code,
            ),
{
    let mut r: Vec<(String, String)> = Vec::new();
    set(&mut r, "FLOW_NAME", &scene.flow_name);
    set(&mut r, "FLOW_DIR", &scene.flow_dir);
    set(&mut r, "FLOW_STATE_DIR", &scene.state_dir);
    set(&mut r, "OP_NAME", &scene.op_name);
    set(&mut r, "OP_WORKSPACE", &scene.workspace);
    set(&mut r, "OP_PROMPT", &scene.prompt);
    set(&mut r, "OP_DURATION", &decimal_text(scene.duration));
    assert(r.deep_view() == scene_variables(*scene));
    let names = params.names();
    let ghost order = names.deep_view();
    let ghost map = params.deep_view();
    let mut i: usize = 0;
    assert(r.deep_view() == scene_variables(*scene) + param_variables(map, order.take(0)));
    while i < names.len()
        invariant
            i <= names.len(),
            order == names.deep_view(),
            map == params.deep_view(),
            forall|n: Seq<char>| #[trigger] order.contains(n) <==> params@.dom().contains(n),
            r.deep_view() == scene_variables(*scene) + param_variables(map, order.take(i as int)),
        decreases names.len() - i,
    {
        assert(order.contains(order[i as int]));
        let ghost before = r.deep_view();
        match params.get(&names[i]) {
            Some(value) => {
                let mut name = "PARAM_".to_string();
                name.append(&to_upper(&names[i]));
                set(&mut r, &name, value);
                assert(param_variable(map, order[i as int]) == (name@, value@));
            },
            None => {},
        }
        i += 1;
        assert(param_variables(map, order.take(i as int)) == param_variables(
            map,
            order.take(i - 1),
        ).push(param_variable(map, order[i - 1])));
        assert(r.deep_view() == scene_variables(*scene) + param_variables(
            map,
            order.take(i as int),
        ));
    }
    assert(order.take(order.len() as int) == order);
    let ghost upto = r.deep_view();
    if let Some(v) = transition {
        set(&mut r, "OP_PARAMS", &print_value(v));
    }
    assert(r.deep_view() == upto + handed_on(*transition));
    let ghost upto = r.deep_view();
    if let Some(code) = exit_code {
        set(&mut r, "OP_EXIT_CODE", &signed_text(code));
    }
    assert(r.deep_view() == upto + code_variable(exit_code));
    assert(lists_names(order, map));
    assert(r.deep_view() == hook_variables(*scene, map, order, *transition, exit_code));
    r
}

// The onion

/// Where the run of the hooks stands: at which hook, or at its end.
#[derive(Clone, Copy)]
pub enum Onion {
    Pre(usize),
    Handle,
    /// A hook after the op, and the code that the op was left with.
    Post { index: usize, handle: i32 },
    /// All is done, with this code.
    Finished(i32),
}

/// The hook at which the run begins.
pub open spec fn onion_first(hooks: HooksView) -> Onion {
    if hooks.pre.len() > 0 {
        Onion::Pre(0)
    } else {
        Onion::Handle
    }
}

/// Where the run stands after the hook at `at` was left with `code`.
pub open spec fn onion_after(hooks: HooksView, at: Onion, code: i32) -> Onion {
    match at {
        Onion::Pre(i) => if code != 0 {
            Onion::Finished(code)
        } else if i + 1 < hooks.pre.len() {
            Onion::Pre((i + 1) as usize)
        } else {
            Onion::Handle
        },
        Onion::Handle => if hooks.post.len() > 0 {
            Onion::Post { index: 0, handle: code }
        } else {
            Onion::Finished(code)
        },
        Onion::Post { index, handle } => if code != 0 {
            Onion::Finished(code)
        } else if index + 1 < hooks.post.len() {
            Onion::Post { index: (index + 1) as usize, handle }
        } else {
            Onion::Finished(handle)
        },
        Onion::Finished(c) => Onion::Finished(c),
    }
}

/// `at` is a hook of `hooks`, or the end.
pub open spec fn onion_at(hooks: HooksView, at: Onion) -> bool {
    match at {
        Onion::Pre(i) => i < hooks.pre.len(),
        Onion::Post { index, .. } => index < hooks.post.len(),
        _ => true,
    }
}

/// Where the run of the hooks begins.
pub fn run_onion(hooks: &ResolvedHooks) -> (r: Onion)
    ensures
        r == onion_first(hooks@),
        onion_at(hooks@, r),
{
    if hooks.pre.len() > 0 {
        Onion::Pre(0)
    } else {
        Onion::Handle
    }
}

/// Where the run stands after the hook at `at` was left with `code`.
pub fn onion_next(hooks: &ResolvedHooks, at: Onion, code: i32) -> (r: Onion)
    requires
        onion_at(hooks@, at),
    ensures
        r == onion_after(hooks@, at, code),
        onion_at(hooks@, r),
{
    let pres: usize = hooks.pre.len();
    let posts: usize = hooks.post.len();
    match at {
        Onion::Pre(i) => if code != 0 {
            Onion::Finished(code)
        } else if i + 1 < pres {
            Onion::Pre(i + 1)
        } else {
            Onion::Handle
        },
        Onion::Handle => if posts > 0 {
            Onion::Post { index: 0, handle: code }
        } else {
            Onion::Finished(code)
        },
        Onion::Post { index, handle } => if code != 0 {
            Onion::Finished(code)
        } else if index + 1 < posts {
            Onion::Post { index: index + 1, handle }
        } else {
            Onion::Finished(handle)
        },
        Onion::Finished(c) => Onion::Finished(c),
    }
}

/// The script to run at `at`, and the code that it is told the op was left
/// with.
pub open spec fn onion_script(hooks: HooksView, at: Onion) -> Option<(Seq<char>, Option<i32>)> {
    match at {
        Onion::Pre(i) => Some((hooks.pre[i as int], None)),
        Onion::Handle => Some((hooks.handle, None)),
        Onion::Post { index, handle } => Some((hooks.post[index as int], Some(handle))),
        Onion::Finished(_) => None,
    }
}

/// The script to run at `at`, and the code that it is told.
pub fn onion_hook(hooks: &ResolvedHooks, at: Onion) -> (r: Option<(String, Option<i32>)>)
    requires
        onion_at(hooks@, at),
    ensures
        r.deep_view() == onion_script(hooks@, at),
{
    match at {
        Onion::Pre(i) => Some((hooks.pre[i].clone(), None)),
        Onion::Handle => Some((hooks.handle.clone(), None)),
        Onion::Post { index, handle } => Some((hooks.post[index].clone(), Some(handle))),
        Onion::Finished(_) => None,
    }
}

/// How many hooks may still be run from `at` on.
pub open spec fn onion_left(hooks: HooksView, at: Onion) -> int {
    match at {
        Onion::Pre(i) => hooks.pre.len() - i + 1 + hooks.post.len(),
        Onion::Handle => 1 + hooks.post.len() as int,
        Onion::Post { index, .. } => hooks.post.len() - index,
        Onion::Finished(_) => 0,
    }
}

/// The code that the run ends with, where `code` says what each hook is left
/// with.
pub open spec fn onion_result(hooks: HooksView, at: Onion, code: spec_fn(Onion) -> i32) -> i32
    decreases onion_left(hooks, at),
    when onion_at(hooks, at) && hooks.pre.len() <= usize::MAX && hooks.post.len() <= usize::MAX
{
    match at {
        Onion::Finished(c) => c,
        _ => onion_result(hooks, onion_after(hooks, at, code(at)), code),
    }
}

/// The first code that is not zero, of the hooks before the op from `i` on.
pub open spec fn first_pre_failure(hooks: HooksView, i: int, code: spec_fn(Onion) -> i32) -> Option<
    i32,
>
    decreases hooks.pre.len() - i,
{
    if i >= hooks.pre.len() {
        None
    } else if code(Onion::Pre(i as usize)) != 0 {
        Some(code(Onion::Pre(i as usize)))
    } else {
        first_pre_failure(hooks, i + 1, code)
    }
}

/// The first code that is not zero, of the hooks after the op from `i` on,
/// each of which is told `handle`.
pub open spec fn first_post_failure(
    hooks: HooksView,
    i: int,
    handle: i32,
    code: spec_fn(Onion) -> i32,
) -> Option<i32>
    decreases hooks.post.len() - i,
{
    if i >= hooks.post.len() {
        None
    } else if code(Onion::Post { index: i as usize, handle }) != 0 {
        Some(code(Onion::Post { index: i as usize, handle }))
    } else {
        first_post_failure(hooks, i + 1, handle, code)
    }
}

/// The hooks before the op are run first, that of the flow around that of the
/// op; the first that fails ends the run with its code. Then the op is run,
/// and after it the other hooks, each told the code of the op; the first that
/// fails gives its code, and without a failure the code of the op stands.
pub proof fn law_onion(hooks: HooksView, code: spec_fn(Onion) -> i32)
    requires
        hooks.pre.len() <= usize::MAX,
        hooks.post.len() <= usize::MAX,
    ensures
        onion_result(hooks, onion_first(hooks), code) == match first_pre_failure(hooks, 0, code) {
            Some(c) => c,
            None => match first_post_failure(hooks, 0, code(Onion::Handle), code) {
                Some(c) => c,
                None => code(Onion::Handle),
            },
        },
{
    lemma_onion_handle(hooks, code);
    if hooks.pre.len() > 0 {
        lemma_onion_pre(hooks, 0, code);
    }
}

proof fn lemma_onion_pre(hooks: HooksView, i: int, code: spec_fn(Onion) -> i32)
    requires
        hooks.pre.len() <= usize::MAX,
        hooks.post.len() <= usize::MAX,
        0 <= i < hooks.pre.len(),
    ensures
        onion_result(hooks, Onion::Pre(i as usize), code) == match first_pre_failure(
            hooks,
            i,
            code,
        ) {
            Some(c) => c,
            None => onion_result(hooks, Onion::Handle, code),
        },
    decreases hooks.pre.len() - i,
{
    let at = Onion::Pre(i as usize);
    if code(at) != 0 {
        assert(onion_after(hooks, at, code(at)) == Onion::Finished(code(at)));
        assert(onion_result(hooks, Onion::Finished(code(at)), code) == code(at));
    } else if i + 1 < hooks.pre.len() {
        lemma_onion_pre(hooks, i + 1, code);
    } else {
        assert(first_pre_failure(hooks, i + 1, code) is None);
    }
}

proof fn lemma_onion_handle(hooks: HooksView, code: spec_fn(Onion) -> i32)
    requires
        hooks.pre.len() <= usize::MAX,
        hooks.post.len() <= usize::MAX,
    ensures
        onion_result(hooks, Onion::Handle, code) == match first_post_failure(
            hooks,
            0,
            code(Onion::Handle),
            code,
        ) {
            Some(c) => c,
            None => code(Onion::Handle),
        },
{
    let h = code(Onion::Handle);
    if hooks.post.len() > 0 {
        lemma_onion_post(hooks, 0, h, code);
    } else {
        assert(onion_result(hooks, Onion::Finished(h), code) == h);
    }
}

proof fn lemma_onion_post(hooks: HooksView, i: int, handle: i32, code: spec_fn(Onion) -> i32)
    requires
        hooks.pre.len() <= usize::MAX,
        hooks.post.len() <= usize::MAX,
        0 <= i < hooks.post.len(),
    ensures
        onion_result(hooks, Onion::Post { index: i as usize, handle }, code)
            == match first_post_failure(hooks, i, handle, code) {
            Some(c) => c,
            None => handle,
        },
    decreases hooks.post.len() - i,
{
    let at = Onion::Post { index: i as usize, handle };
    if code(at) != 0 {
        assert(onion_result(hooks, Onion::Finished(code(at)), code) == code(at));
    } else if i + 1 < hooks.post.len() {
        lemma_onion_post(hooks, i + 1, handle, code);
    } else {
        assert(first_post_failure(hooks, i + 1, handle, code) is None);
        assert(onion_result(hooks, Onion::Finished(handle), code) == handle);
    }
}

/// An op is handled by its own script where it has one, by that of its flow
/// where only the flow has one, and by none where neither has one.
pub proof fn law_own_handle_first(flow_dir: Seq<char>, op: Seq<char>, present: Present)
    ensures
        ({
            let own = joined_path(
                joined_path(joined_path(flow_dir, "ops"@), op),
                "handle.sh"@,
            );
            let shared = joined_path(flow_dir, "handle.sh"@);
            let handle = handle_of(flow_dir, op, present);
            &&& present.op_handle ==> handle == Some(own)
            &&& !present.op_handle && present.flow_handle ==> handle == Some(shared)
            &&& handle is None <==> !present.op_handle && !present.flow_handle
        }),
{
}

/// Every hook that there is is run, and no other. The hooks of the flow stand
/// around those of the op: first before it, and last after it.
pub proof fn law_flow_hooks_around(flow_dir: Seq<char>, op: Seq<char>, present: Present)
    ensures
        ({
            let dir = joined_path(joined_path(flow_dir, "ops"@), op);
            let pre = pre_of(flow_dir, op, present);
            let post = post_of(flow_dir, op, present);
            &&& pre.len() == (if present.flow_pre { 1int } else { 0 }) + (if present.op_pre {
                1int
            } else {
                0
            })
            &&& present.flow_pre ==> pre.first() == joined_path(flow_dir, "pre.sh"@)
            &&& present.op_pre ==> pre.last() == joined_path(dir, "pre.sh"@)
            &&& post.len() == (if present.flow_post { 1int } else { 0 }) + (if present.op_post {
                1int
            } else {
                0
            })
            &&& present.op_post ==> post.first() == joined_path(dir, "post.sh"@)
            &&& present.flow_post ==> post.last() == joined_path(flow_dir, "post.sh"@)
        }),
{
}

/// The run goes through the hooks in their order, and only a hook after the op
/// is told the code that the op was left with.
pub proof fn law_hooks_in_order(hooks: HooksView, i: usize, handle: i32, code: i32)
    ensures
        onion_script(hooks, Onion::Handle) == Some((hooks.handle, None::<i32>)),
        i < hooks.pre.len() ==> onion_script(hooks, Onion::Pre(i)) == Some(
            (hooks.pre[i as int], None::<i32>),
        ),
        i < hooks.post.len() ==> onion_script(hooks, Onion::Post { index: i, handle }) == Some(
            (hooks.post[i as int], Some(handle)),
        ),
        onion_script(hooks, Onion::Finished(code)) is None,
        i + 1 < hooks.pre.len() && i < usize::MAX ==> onion_after(hooks, Onion::Pre(i), 0)
            == Onion::Pre((i + 1) as usize),
        i + 1 == hooks.pre.len() ==> onion_after(hooks, Onion::Pre(i), 0) == Onion::Handle,
        hooks.post.len() > 0 ==> onion_after(hooks, Onion::Handle, code) == (Onion::Post {
            index: 0,
            handle: code,
        }),
{
}

/// A hook sees the flow, the op and its workspace under the names that belong
/// to them, each parameter of the op under `PARAM_` and its name in capital
/// letters, what the op before handed on, and the code of the op.
pub proof fn law_hook_sees(
    scene: HookScene,
    params: Map<Seq<char>, Seq<char>>,
    names: Seq<Seq<char>>,
    transition: Option<serde_json::Value>,
    exit_code: Option<i32>,
    name: Seq<char>,
)
    requires
        lists_names(names, params),
    ensures
        ({
            let seen = hook_variables(scene, params, names, transition, exit_code);
            &&& seen.contains(("FLOW_NAME"@, scene.flow_name@))
            &&& seen.contains(("FLOW_DIR"@, scene.flow_dir@))
            &&& seen.contains(("FLOW_STATE_DIR"@, scene.state_dir@))
            &&& seen.contains(("OP_NAME"@, scene.op_name@))
            &&& seen.contains(("OP_WORKSPACE"@, scene.workspace@))
            &&& seen.contains(("OP_PROMPT"@, scene.prompt@))
            &&& seen.contains(("OP_DURATION"@, decimal(scene.duration as nat)))
            &&& params.dom().contains(name) ==> seen.contains(
                ("PARAM_"@ + upper_case(name), params[name]),
            )
            &&& transition is Some ==> seen.contains(
                ("OP_PARAMS"@, json_print(json_tree(transition->0))),
            )
            &&& exit_code is Some && exit_code->0 >= 0 ==> seen.contains(
                ("OP_EXIT_CODE"@, decimal(exit_code->0 as nat)),
            )
            &&& exit_code is Some && exit_code->0 < 0 ==> seen.contains(
                ("OP_EXIT_CODE"@, "-"@ + decimal((0 - exit_code->0) as nat)),
            )
            &&& seen.len() == 7 + names.len() + (if transition is Some { 1int } else { 0 }) + (
            if exit_code is Some {
                1int
            } else {
                0
            })
        }),
{
    let seen = hook_variables(scene, params, names, transition, exit_code);
    let n = 7 + names.len() as int;
    assert(seen[0] == ("FLOW_NAME"@, scene.flow_name@));
    assert(seen[1] == ("FLOW_DIR"@, scene.flow_dir@));
    assert(seen[2] == ("FLOW_STATE_DIR"@, scene.state_dir@));
    assert(seen[3] == ("OP_NAME"@, scene.op_name@));
    assert(seen[4] == ("OP_WORKSPACE"@, scene.workspace@));
    assert(seen[5] == ("OP_PROMPT"@, scene.prompt@));
    assert(seen[6] == ("OP_DURATION"@, decimal(scene.duration as nat)));
    if params.dom().contains(name) {
        assert(names.contains(name));
        let i = names.index_of(name);
        assert(seen[7 + i] == ("PARAM_"@ + upper_case(name), params[name]));
    }
    if transition is Some {
        assert(seen[n] == ("OP_PARAMS"@, json_print(json_tree(transition->0))));
    }
    if exit_code is Some {
        assert(seen[seen.len() - 1] == ("OP_EXIT_CODE"@, signed(exit_code->0)));
    }
}

/// Where no script handles an op, the two that were looked for are named.
pub proof fn law_missing_handle_said(e: NoHandle)
    ensures
        e.words() == "no handle.sh found (checked "@ + e.op_handle@ + " and "@ + e.flow_handle@
            + ")"@,
{
}

} // verus!
