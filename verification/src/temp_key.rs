//! Temporary key bindings: while the plugin is active it binds its own keys,
//! remembering what each key was bound to before, so that clearing the
//! bindings puts the earlier ones back.
use vstd::prelude::*;

verus! {

/// The editor modes in which a key binding applies.
#[derive(Clone, Copy, Debug, PartialEq, Eq, Structural)]
pub enum KeymapMode {
    CmdLine,
    Insert,
    InsertCmdLine,
    Langmap,
    NormalVisualOperator,
    Normal,
    OperatorPending,
    Select,
    Terminal,
    Visual,
    VisualSelect,
}

/// What the editor reports of one key binding.
pub struct KeymapSnapshot {
    /// Whether the binding is local to a buffer.
    pub buffer: bool,
    /// The Lua reference of the callback that the key runs, if any.
    pub callback: Option<i32>,
    /// Whether the right-hand side is an expression.
    pub expr: bool,
    /// The key sequence that is bound.
    pub lhs: String,
    /// The line where a script-local binding is defined, if known.
    pub lnum: Option<u32>,
    /// The modes in which the binding applies.
    pub mode: KeymapMode,
    /// Whether the right-hand side is not remappable.
    pub noremap: bool,
    /// Whether the editor does not wait for more keys.
    pub nowait: bool,
    /// What the key does, if it is given as text.
    pub rhs: Option<String>,
    /// Whether the binding was defined with `<script>`.
    pub script: bool,
    /// The script-local id.
    pub sid: i32,
    /// Whether the binding is silent.
    pub silent: bool,
}

/// A key binding as plain values.
pub struct KeymapView {
    pub buffer: bool,
    pub callback: Option<i32>,
    pub expr: bool,
    pub lhs: Seq<char>,
    pub lnum: Option<u32>,
    pub mode: KeymapMode,
    pub noremap: bool,
    pub nowait: bool,
    pub rhs: Option<Seq<char>>,
    pub script: bool,
    pub sid: i32,
    pub silent: bool,
}

impl View for KeymapSnapshot {
    type V = KeymapView;

    open spec fn view(&self) -> KeymapView {
        KeymapView {
            buffer: self.buffer,
            callback: self.callback,
            expr: self.expr,
            lhs: self.lhs@,
            lnum: self.lnum,
            mode: self.mode,
            noremap: self.noremap,
            nowait: self.nowait,
            rhs: match self.rhs {
                Some(r) => Some(r@),
                None => None,
            },
            script: self.script,
            sid: self.sid,
            silent: self.silent,
        }
    }
}

/// Whether two optional numbers are the same.
fn same_option_i32(a: Option<i32>, b: Option<i32>) -> (same: bool)
    ensures
        same == (a == b),
{
    match (a, b) {
        (Some(x), Some(y)) => x == y,
        (None, None) => true,
        _ => false,
    }
}

/// Whether two optional numbers are the same.
fn same_option_u32(a: Option<u32>, b: Option<u32>) -> (same: bool)
    ensures
        same == (a == b),
{
    match (a, b) {
        (Some(x), Some(y)) => x == y,
        (None, None) => true,
        _ => false,
    }
}

/// Whether two optional texts are the same.
fn same_option_string(a: &Option<String>, b: &Option<String>) -> (same: bool)
    ensures
        same == (match (a, b) {
            (Some(x), Some(y)) => x@ == y@,
            (None, None) => true,
            _ => false,
        }),
{
    match (a, b) {
        (Some(x), Some(y)) => x.eq(y),
        (None, None) => true,
        _ => false,
    }
}

impl KeymapSnapshot {
    /// Whether the two bindings are the same in every part.
    pub fn same_as(&self, other: &KeymapSnapshot) -> (same: bool)
        ensures
            same == (self@ == other@),
    {
        let same_rhs = same_option_string(&self.rhs, &other.rhs);
        self.buffer == other.buffer && same_option_i32(self.callback, other.callback) && self.expr
            == other.expr && self.lhs == other.lhs && same_option_u32(self.lnum, other.lnum)
            && self.mode == other.mode && self.noremap == other.noremap && self.nowait
            == other.nowait && same_rhs && self.script == other.script && self.sid == other.sid
            && self.silent == other.silent
    }
}

/// Finds the binding of the key sequence `lhs` among those the editor
/// reports for a mode: the first one whose left-hand side is `lhs`.
pub fn get_mapping(keymaps: Vec<KeymapSnapshot>, lhs: &str) -> (found: Option<KeymapSnapshot>)
    ensures
        match found {
            None => forall|i: int| 0 <= i < keymaps@.len() ==> #[trigger] keymaps@[i].lhs@ != lhs@,
            Some(k) => exists|i: int|
                0 <= i < keymaps@.len() && #[trigger] keymaps@[i] == k && k.lhs@ == lhs@ && forall|
                    j: int,
                | 0 <= j < i ==> #[trigger] keymaps@[j].lhs@ != lhs@,
        },
{
    let mut list = keymaps;
    let ghost all = list@;
    let wanted = String::from_str(lhs);
    let mut i: usize = 0;
    while i < list.len()
        invariant
            list@ == all,
            all == keymaps@,
            wanted@ == lhs@,
            i <= all.len(),
            forall|j: int| 0 <= j < i ==> #[trigger] all[j].lhs@ != lhs@,
        decreases all.len() - i,
    {
        if list[i].lhs.eq(&wanted) {
            let k = list.remove(i);
            assert(all[i as int] == k && k.lhs@ == lhs@);
            return Some(k);
        }
        i = i + 1;
    }
    None
}

/// A key bound by the plugin, with the binding that the key had before.
pub struct TempKeyBind {
    pub lhs: String,
    pub original_keybind: Option<KeymapSnapshot>,
}

/// A temporary binding as plain values.
pub struct TempKeyBindView {
    pub lhs: Seq<char>,
    pub original_keybind: Option<KeymapView>,
}

impl View for TempKeyBind {
    type V = TempKeyBindView;

    open spec fn view(&self) -> TempKeyBindView {
        TempKeyBindView {
            lhs: self.lhs@,
            original_keybind: match self.original_keybind {
                Some(k) => Some(k@),
                None => None,
            },
        }
    }
}

/// What puts a key back as it was: first the temporary binding of `lhs` in
/// normal mode is deleted, then, if the key had a binding before, that
/// binding is set again.
pub struct RestorePlan {
    pub delete_lhs: String,
    pub restore: Option<KeymapRestore>,
}

/// A binding to set again: in the current buffer or globally, with the
/// options that it had.
pub struct KeymapRestore {
    pub buffer_local: bool,
    pub mode: KeymapMode,
    pub lhs: String,
    pub rhs: String,
    pub noremap: bool,
    pub callback: Option<i32>,
    pub expr: bool,
    pub nowait: bool,
    pub script: bool,
    pub silent: bool,
}

impl TempKeyBind {
    /// The binding of `lhs` made by the plugin, where `original_keybind` is
    /// what the key was bound to before.
    pub fn new(lhs: String, original_keybind: Option<KeymapSnapshot>) -> (bind: Self)
        ensures
            bind.lhs == lhs,
            bind.original_keybind == original_keybind,
    {
        TempKeyBind { lhs, original_keybind }
    }

    /// Whether the two temporary bindings are the same in every part.
    pub fn same_as(&self, other: &TempKeyBind) -> (same: bool)
        ensures
            same == (self@ == other@),
    {
        if !self.lhs.eq(&other.lhs) {
            return false;
        }
        match (&self.original_keybind, &other.original_keybind) {
            (Some(a), Some(b)) => a.same_as(b),
            (None, None) => true,
            _ => false,
        }
    }

    /// How to undo this binding: the temporary binding is deleted, and the
    /// earlier binding, if there was one, is set again where it was (in the
    /// buffer or globally), in its mode, with its right-hand side (or an
    /// empty one) and its options.
    pub fn remove(self) -> (plan: RestorePlan)
        ensures
            plan.delete_lhs@ == self.lhs@,
            match self.original_keybind {
                None => plan.restore is None,
                Some(k) => plan.restore matches Some(r) && {
                    &&& r.buffer_local == k.buffer
                    &&& r.mode == k.mode
                    &&& r.lhs@ == k.lhs@
                    &&& r.rhs@ == (match k.rhs {
                        Some(text) => text@,
                        None => Seq::<char>::empty(),
                    })
                    &&& r.noremap == k.noremap
                    &&& r.callback == k.callback
                    &&& r.expr == k.expr
                    &&& r.nowait == k.nowait
                    &&& r.script == k.script
                    &&& r.silent == k.silent
                },
            },
    {
        let restore = match self.original_keybind {
            None => None,
            Some(k) => {
                let rhs = match k.rhs {
                    Some(text) => text,
                    None => String::new(),
                };
                Some(
                    KeymapRestore {
                        buffer_local: k.buffer,
                        mode: k.mode,
                        lhs: k.lhs,
                        rhs,
                        noremap: k.noremap,
                        callback: k.callback,
                        expr: k.expr,
                        nowait: k.nowait,
                        script: k.script,
                        silent: k.silent,
                    },
                )
            },
        };
        RestorePlan { delete_lhs: self.lhs, restore }
    }
}

/// The temporary bindings that the plugin holds, each once. They are kept in
/// a vector under the invariant that no binding occurs twice, rather than in a
/// hash set: for a key of this kind nothing can be proved of what a hash set
/// holds.
pub struct Mappings {
    mappings: Vec<TempKeyBind>,
}

impl View for Mappings {
    type V = Set<TempKeyBindView>;

    closed spec fn view(&self) -> Set<TempKeyBindView> {
        Set::new(|b: TempKeyBindView| self.binds().contains(b))
    }
}

impl Mappings {
    #[verifier::type_invariant]
    spec fn held_once(self) -> bool {
        self.binds().no_duplicates()
    }

    /// The bindings in the order they were added.
    pub closed spec fn binds(&self) -> Seq<TempKeyBindView> {
        self.mappings@.map_values(|b: TempKeyBind| b@)
    }

    /// No bindings.
    pub fn new() -> (maps: Self)
        ensures
            maps@ == Set::<TempKeyBindView>::empty(),
            maps.binds() == Seq::<TempKeyBindView>::empty(),
    {
        let maps = Mappings { mappings: Vec::new() };
        assert(maps.binds() =~= Seq::<TempKeyBindView>::empty());
        assert(maps@ =~= Set::<TempKeyBindView>::empty());
        maps
    }

    /// Holds `bind`, unless the same binding is held already.
    pub fn add(&mut self, bind: TempKeyBind)
        ensures
            final(self)@ == old(self)@.insert(bind@),
            final(self).binds() == (if old(self)@.contains(bind@) {
                old(self).binds()
            } else {
                old(self).binds().push(bind@)
            }),
    {
        proof {
            use_type_invariant(&*self);
        }
        let ghost before = self.binds();
        let n = self.mappings.len();
        let mut i: usize = 0;
        while i < n
            invariant
                n == self.mappings@.len(),
                before == self.binds(),
                i <= n,
                forall|j: int| 0 <= j < i ==> #[trigger] before[j] != bind@,
            decreases n - i,
        {
            if self.mappings[i].same_as(&bind) {
                assert(before[i as int] == bind@);
                assert(self@ =~= self@.insert(bind@));
                return;
            }
            i = i + 1;
        }
        assert(!before.contains(bind@));
        let mut list = Vec::new();
        std::mem::swap(&mut list, &mut self.mappings);
        list.push(bind);
        assert(list@.map_values(|b: TempKeyBind| b@) =~= before.push(bind@));
        self.mappings = list;
        assert(self@ =~= old(self)@.insert(bind@)) by {
            broadcast use vstd::seq_lib::group_seq_properties;

            assert(self.binds() == before.push(bind@));
            assert(old(self).binds() == before);
        }
    }

    /// Lets go of every binding and hands them all back, each once, in the
    /// order they were added, so that each can be undone.
    pub fn clear(&mut self) -> (drained: Vec<TempKeyBind>)
        ensures
            final(self)@ == Set::<TempKeyBindView>::empty(),
            final(self).binds() == Seq::<TempKeyBindView>::empty(),
            drained@.map_values(|b: TempKeyBind| b@) == old(self).binds(),
            drained@.map_values(|b: TempKeyBind| b@).no_duplicates(),
            forall|b: TempKeyBindView| old(self)@.contains(b) <==> drained@.map_values(|d: TempKeyBind| d@).contains(b),
    {
        proof {
            use_type_invariant(&*self);
        }
        let mut drained = Vec::new();
        std::mem::swap(&mut drained, &mut self.mappings);
        assert(self.binds() =~= Seq::<TempKeyBindView>::empty());
        assert(self@ =~= Set::<TempKeyBindView>::empty());
        drained
    }
}

} // verus!
