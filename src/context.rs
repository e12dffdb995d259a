use vstd::prelude::*;

use crate::semantics::{
    MAX_DEPTH, bind_builtins, define, import_public, import_core, load_core, mark_loaded, new_context, ContextModel, SourceModel,
    SourceTextModel,
};
use crate::value::{builtin_table, core_table, string_views, Sx, Value, Visibility};

verus! {

#[verifier::external_type_specification]
#[verifier::external_body]
#[verifier::reject_recursive_types(K)]
#[verifier::reject_recursive_types(V)]
#[verifier::reject_recursive_types(S)]
pub struct ExImHashMap<K, V, S>(im::HashMap<K, V, S>);

/// An im map from (module, name) to a value and its visibility.
pub type Definitions = im::HashMap<(String, String), (Sx, Visibility)>;

/// The bindings that an im map of definitions holds, over models.
pub uninterp spec fn definitions_of(m: Definitions) -> Map<(Seq<char>, Seq<char>), (Value, Visibility)>;

pub open spec fn no_definitions() -> Map<(Seq<char>, Seq<char>), (Value, Visibility)> {
    Map::empty()
}

/// Relies on im's `HashMap::new`: a map without bindings.
#[verifier::external_body]
fn definitions_new() -> (r: Definitions)
    ensures
        definitions_of(r) == no_definitions(),
{
    im::HashMap::new()
}

/// Relies on im's `HashMap::clone`: the same bindings (entries are shared, and
/// copied later with `Sx::clone`, which keeps each value's model).
#[verifier::external_body]
fn definitions_clone(m: &Definitions) -> (r: Definitions)
    ensures
        definitions_of(r) == definitions_of(*m),
{
    m.clone()
}

/// Relies on im's `HashMap::insert`: binds the key, replacing an earlier binding of an equal key.
#[verifier::external_body]
fn definitions_insert(m: &mut Definitions, k: (String, String), v: (Sx, Visibility))
    ensures
        definitions_of(*final(m)) == definitions_of(*old(m)).insert((k.0@, k.1@), (v.0@, v.1)),
{
    m.insert(k, v);
}

/// Relies on im's `HashMap::get`: the binding of an equal key, if any, cloned out.
#[verifier::external_body]
fn definitions_get(m: &Definitions, module: &String, name: &String) -> (r: Option<(Sx, Visibility)>)
    ensures
        match r {
            Some(x) => definitions_of(*m).contains_key((module@, name@)) && definitions_of(*m)[(module@, name@)]
                == (x.0@, x.1),
            None => !definitions_of(*m).contains_key((module@, name@)),
        },
{
    m.get(&(module.clone(), name.clone())).cloned()
}

/// What the loader finds at a module's path.
#[derive(Debug)]
pub enum SourceText {
    Text(String),
    OpenError(String),
    ReadError(String),
}

/// A `<dir>/<module>.sol` file under one of the module paths, as read before evaluation.
#[derive(Debug)]
pub struct ModuleSource {
    pub dir: String,
    pub module: String,
    pub path: String,
    pub text: SourceText,
}

impl SourceText {
    pub open spec fn view(&self) -> SourceTextModel {
        match self {
            SourceText::Text(s) => SourceTextModel::Text(s@),
            SourceText::OpenError(s) => SourceTextModel::OpenError(s@),
            SourceText::ReadError(s) => SourceTextModel::ReadError(s@),
        }
    }
}

impl Clone for SourceText {
    fn clone(&self) -> (r: Self)
        ensures
            r@ == self@,
    {
        match self {
            SourceText::Text(s) => SourceText::Text(s.clone()),
            SourceText::OpenError(s) => SourceText::OpenError(s.clone()),
            SourceText::ReadError(s) => SourceText::ReadError(s.clone()),
        }
    }
}

impl ModuleSource {
    pub open spec fn view(&self) -> SourceModel {
        SourceModel { dir: self.dir@, module: self.module@, path: self.path@, text: self.text@ }
    }
}

impl Clone for ModuleSource {
    fn clone(&self) -> (r: Self)
        ensures
            r@ == self@,
    {
        ModuleSource {
            dir: self.dir.clone(),
            module: self.module.clone(),
            path: self.path.clone(),
            text: self.text.clone(),
        }
    }
}

/// The evaluation environment: module search paths, the current module, the
/// loaded modules, and the definitions of every module.
pub struct Context {
    pub module_paths: Vec<String>,
    pub current_module: String,
    pub loaded_modules: Vec<String>,
    pub definitions: Definitions,
    /// The keys of `definitions` in order of first definition.
    pub keys: Vec<(String, String)>,
    pub core_module: String,
    /// The module files the loader can find; whoever drives evaluation reads
    /// them from storage and keeps this list current.
    pub sources: Vec<ModuleSource>,
    /// Records left by `trace` (label and value), oldest first, for the driver to show.
    pub traces: Vec<(String, Sx)>,
    /// How deep evaluation may nest.
    pub max_depth: u64,
}

pub open spec fn key_views(ks: Seq<(String, String)>) -> Seq<(Seq<char>, Seq<char>)> {
    Seq::new(ks.len(), |i: int| (ks[i].0@, ks[i].1@))
}

pub open spec fn source_views(ss: Seq<ModuleSource>) -> Seq<SourceModel> {
    Seq::new(ss.len(), |i: int| ss[i]@)
}

pub open spec fn trace_views(ts: Seq<(String, Sx)>) -> Seq<(Seq<char>, Value)> {
    Seq::new(ts.len(), |i: int| (ts[i].0@, ts[i].1@))
}

impl Context {
    pub open spec fn view(&self) -> ContextModel {
        ContextModel {
            module_paths: string_views(self.module_paths@),
            current: self.current_module@,
            loaded: string_views(self.loaded_modules@),
            defs: definitions_of(self.definitions),
            keys: key_views(self.keys@),
            core: self.core_module@,
            sources: source_views(self.sources@),
            traces: trace_views(self.traces@),
        }
    }

    /// A copy of this context without its module sources.
    pub fn copy_without_sources(&self) -> (r: Context)
        ensures
            r@ == (ContextModel { sources: seq![], ..self@ }),
            r.max_depth == self.max_depth,
    {
        let mut keys: Vec<(String, String)> = Vec::new();
        let mut i: usize = 0;
        while i < self.keys.len()
            invariant
                i <= self.keys.len(),
                keys@.len() == i,
                forall|j: int| 0 <= j < i ==> (#[trigger] keys@[j]).0@ == self.keys@[j].0@ && keys@[j].1@ == self.keys@[j].1@,
            decreases self.keys.len() - i,
        {
            keys.push((self.keys[i].0.clone(), self.keys[i].1.clone()));
            i = i + 1;
        }
        assert(key_views(keys@) =~= key_views(self.keys@));
        let mut traces: Vec<(String, Sx)> = Vec::new();
        let mut i: usize = 0;
        while i < self.traces.len()
            invariant
                i <= self.traces.len(),
                traces@.len() == i,
                forall|j: int| 0 <= j < i ==> (#[trigger] traces@[j]).0@ == self.traces@[j].0@ && traces@[j].1@ == self.traces@[j].1@,
            decreases self.traces.len() - i,
        {
            traces.push((self.traces[i].0.clone(), self.traces[i].1.copy()));
            i = i + 1;
        }
        assert(trace_views(traces@) =~= trace_views(self.traces@));
        let r = Context {
            module_paths: copy_strings(&self.module_paths),
            current_module: self.current_module.clone(),
            loaded_modules: copy_strings(&self.loaded_modules),
            definitions: definitions_clone(&self.definitions),
            keys,
            core_module: self.core_module.clone(),
            sources: Vec::new(),
            traces,
            max_depth: self.max_depth,
        };
        assert(r@.sources =~= Seq::<SourceModel>::empty());
        r
    }

    /// A copy of this context, with the same model.
    pub fn copy(&self) -> (r: Context)
        ensures
            r@ == self@,
            r.max_depth == self.max_depth,
    {
        let mut keys: Vec<(String, String)> = Vec::new();
        let mut i: usize = 0;
        while i < self.keys.len()
            invariant
                i <= self.keys.len(),
                keys@.len() == i,
                forall|j: int| 0 <= j < i ==> (#[trigger] keys@[j]).0@ == self.keys@[j].0@ && keys@[j].1@ == self.keys@[j].1@,
            decreases self.keys.len() - i,
        {
            keys.push((self.keys[i].0.clone(), self.keys[i].1.clone()));
            i = i + 1;
        }
        assert(key_views(keys@) =~= key_views(self.keys@));
        let mut sources: Vec<ModuleSource> = Vec::new();
        let mut i: usize = 0;
        while i < self.sources.len()
            invariant
                i <= self.sources.len(),
                sources@.len() == i,
                forall|j: int| 0 <= j < i ==> (#[trigger] sources@[j])@ == self.sources@[j]@,
            decreases self.sources.len() - i,
        {
            sources.push(self.sources[i].clone());
            i = i + 1;
        }
        assert(source_views(sources@) =~= source_views(self.sources@));
        let mut traces: Vec<(String, Sx)> = Vec::new();
        let mut i: usize = 0;
        while i < self.traces.len()
            invariant
                i <= self.traces.len(),
                traces@.len() == i,
                forall|j: int| 0 <= j < i ==> (#[trigger] traces@[j]).0@ == self.traces@[j].0@ && traces@[j].1@ == self.traces@[j].1@,
            decreases self.traces.len() - i,
        {
            traces.push((self.traces[i].0.clone(), self.traces[i].1.copy()));
            i = i + 1;
        }
        assert(trace_views(traces@) =~= trace_views(self.traces@));
        Context {
            module_paths: copy_strings(&self.module_paths),
            current_module: self.current_module.clone(),
            loaded_modules: copy_strings(&self.loaded_modules),
            definitions: definitions_clone(&self.definitions),
            keys,
            core_module: self.core_module.clone(),
            sources,
            traces,
            max_depth: self.max_depth,
        }
    }

    /// A context whose current module is `current_module`; the core module and
    /// it are loaded, and nothing is bound yet (see `load_core` and `import_core`).
    pub fn new(current_module: &String) -> (r: Context)
        ensures
            r@ == new_context(current_module@),
            r.max_depth == MAX_DEPTH,
    {
        let core = String::from_str("core");
        proof {
            reveal_strlit("core");
            assert("core"@ =~= seq!['c', 'o', 'r', 'e']);
        }
        let mut ctx = Context {
            module_paths: Vec::new(),
            current_module: current_module.clone(),
            loaded_modules: vec![core.clone()],
            definitions: definitions_new(),
            keys: Vec::new(),
            core_module: core,
            sources: Vec::new(),
            traces: Vec::new(),
            max_depth: MAX_DEPTH,
        };
        assert(ctx@.loaded =~= seq![seq!['c', 'o', 'r', 'e']]);
        assert(ctx@.module_paths =~= Seq::<Seq<char>>::empty());
        assert(ctx@.keys =~= Seq::<(Seq<char>, Seq<char>)>::empty());
        assert(ctx@.sources =~= Seq::<SourceModel>::empty());
        assert(ctx@.traces =~= Seq::<(Seq<char>, Value)>::empty());
        ctx.mark_loaded(current_module);
        ctx
    }

    /// Adds a directory to the module search path, unless it is there already.
    pub fn add_module_path(&mut self, dir: &String)
        ensures
            final(self)@ == (if old(self)@.module_paths.contains(dir@) {
                old(self)@
            } else {
                ContextModel { module_paths: old(self)@.module_paths.push(dir@), ..old(self)@ }
            }),
            final(self).max_depth == old(self).max_depth,
    {
        if contains_string(&self.module_paths, dir) {
            return;
        }
        self.module_paths.push(dir.clone());
        assert(self@.module_paths =~= old(self)@.module_paths.push(dir@));
    }

    /// Makes a module source visible to the loader.
    pub fn add_source(&mut self, source: ModuleSource)
        ensures
            final(self)@ == (ContextModel { sources: old(self)@.sources.push(source@), ..old(self)@ }),
            final(self).max_depth == old(self).max_depth,
    {
        let ghost s = source@;
        self.sources.push(source);
        assert(self@.sources =~= old(self)@.sources.push(s));
    }

    /// Marks a module as loaded (once).
    pub fn mark_loaded(&mut self, module: &String)
        ensures
            final(self)@ == mark_loaded(old(self)@, module@),
            final(self).max_depth == old(self).max_depth,
    {
        if !contains_string(&self.loaded_modules, module) {
            self.loaded_modules.push(module.clone());
            assert(self@.loaded =~= old(self)@.loaded.push(module@));
        }
    }

    /// Binds `symbol` in `module`.
    pub fn define(&mut self, module: &String, symbol: &String, value: &Sx, visibility: Visibility)
        ensures
            final(self)@ == define(old(self)@, module@, symbol@, value@, visibility),
            final(self).max_depth == old(self).max_depth,
    {
        if definitions_get(&self.definitions, module, symbol).is_none() {
            self.keys.push((module.clone(), symbol.clone()));
            assert(key_views(self.keys@) =~= key_views(old(self).keys@).push((module@, symbol@)));
        }
        definitions_insert(&mut self.definitions, (module.clone(), symbol.clone()), (value.copy(), visibility));
    }

    /// Binds `symbol` in the current module.
    pub fn define_current(&mut self, symbol: &String, value: &Sx, visibility: Visibility)
        ensures
            final(self)@ == define(old(self)@, old(self)@.current, symbol@, value@, visibility),
            final(self).max_depth == old(self).max_depth,
    {
        let module = self.current_module.clone();
        self.define(&module, symbol, value, visibility);
    }

    /// The binding of `symbol` in `module`, if any.
    pub fn lookup(&self, module: &String, symbol: &String) -> (r: Option<(Sx, Visibility)>)
        ensures
            match r {
                Some(x) => self@.defs.contains_key((module@, symbol@)) && self@.defs[(module@, symbol@)] == (x.0@, x.1),
                None => !self@.defs.contains_key((module@, symbol@)),
            },
    {
        definitions_get(&self.definitions, module, symbol)
    }

    /// The binding of `symbol` in the current module, if any.
    pub fn lookup_current(&self, symbol: &String) -> (r: Option<(Sx, Visibility)>)
        ensures
            match r {
                Some(x) => self@.defs.contains_key((self@.current, symbol@)) && self@.defs[(self@.current, symbol@)]
                    == (x.0@, x.1),
                None => !self@.defs.contains_key((self@.current, symbol@)),
            },
    {
        definitions_get(&self.definitions, &self.current_module, symbol)
    }

    /// The binding of `symbol` in the core module, if any.
    pub fn lookup_core(&self, symbol: &String) -> (r: Option<(Sx, Visibility)>)
        ensures
            match r {
                Some(x) => self@.defs.contains_key((self@.core, symbol@)) && self@.defs[(self@.core, symbol@)]
                    == (x.0@, x.1),
                None => !self@.defs.contains_key((self@.core, symbol@)),
            },
    {
        definitions_get(&self.definitions, &self.core_module, symbol)
    }

    fn bind_builtins(&mut self, module: &String, visibility: Visibility)
        ensures
            final(self)@ == bind_builtins(old(self)@, module@, visibility, core_table().len() as int),
            final(self).max_depth == old(self).max_depth,
    {
        let table = builtin_table();
        let mut i: usize = 0;
        while i < table.len()
            invariant
                table@ == core_table(),
                i <= table@.len(),
                self@ == bind_builtins(old(self)@, module@, visibility, i as int),
                self.max_depth == old(self).max_depth,
            decreases table.len() - i,
        {
            let b = table[i];
            let info = b.info();
            let name = String::from_str(info.name);
            self.define(module, &name, &Sx::Builtin(b), visibility);
            i = i + 1;
        }
    }

    /// Registers every builtin in the core module as Public.
    pub fn load_core(&mut self)
        ensures
            final(self)@ == load_core(old(self)@),
            final(self).max_depth == old(self).max_depth,
    {
        let core = self.core_module.clone();
        self.bind_builtins(&core, Visibility::Public);
    }

    /// Binds every Public definition of `module` in the current module as Imported.
    pub fn import_public(&mut self, module: &String)
        ensures
            final(self)@ == import_public(old(self)@, module@, old(self)@.keys.len() as int),
            final(self).max_depth == old(self).max_depth,
    {
        let ghost c0 = self@;
        let before = definitions_clone(&self.definitions);
        let n = self.keys.len();
        let mut keys: Vec<(String, String)> = Vec::new();
        let mut i: usize = 0;
        while i < n
            invariant
                n == self.keys@.len(),
                i <= n,
                keys@.len() == i,
                forall|j: int| 0 <= j < i ==> (#[trigger] keys@[j]).0@ == self.keys@[j].0@ && keys@[j].1@ == self.keys@[j].1@,
            decreases n - i,
        {
            keys.push((self.keys[i].0.clone(), self.keys[i].1.clone()));
            i = i + 1;
        }
        let mut i: usize = 0;
        while i < n
            invariant
                i <= n,
                n == c0.keys.len(),
                keys@.len() == n,
                forall|j: int| 0 <= j < n ==> (#[trigger] keys@[j]).0@ == c0.keys[j].0 && keys@[j].1@ == c0.keys[j].1,
                definitions_of(before) == c0.defs,
                self@ == import_public(c0, module@, i as int),
                self.max_depth == old(self).max_depth,
            decreases n - i,
        {
            let key = &keys[i];
            if key.0 == *module {
                match definitions_get(&before, &key.0, &key.1) {
                    Some(x) => {
                        if x.1 == Visibility::Public {
                            let current = self.current_module.clone();
                            self.define(&current, &key.1, &x.0, Visibility::Imported);
                        }
                    },
                    None => {},
                }
            }
            i = i + 1;
        }
    }

    /// Binds every Public definition of the core module in the current module as Imported.
    pub fn import_core(&mut self)
        ensures
            final(self)@ == import_core(old(self)@),
            final(self).max_depth == old(self).max_depth,
    {
        let core = self.core_module.clone();
        self.import_public(&core);
    }
}

/// Copies of the strings of `v`, in order.
pub fn copy_strings(v: &Vec<String>) -> (r: Vec<String>)
    ensures
        string_views(r@) == string_views(v@),
{
    let mut out: Vec<String> = Vec::new();
    let mut i: usize = 0;
    while i < v.len()
        invariant
            i <= v.len(),
            out@.len() == i,
            forall|j: int| 0 <= j < i ==> #[trigger] out@[j]@ == v@[j]@,
        decreases v.len() - i,
    {
        out.push(v[i].clone());
        i = i + 1;
    }
    assert(string_views(out@) =~= string_views(v@));
    out
}

/// Whether `v` holds a string equal to `s`.
pub fn contains_string(v: &Vec<String>, s: &String) -> (r: bool)
    ensures
        r == string_views(v@).contains(s@),
{
    let mut i: usize = 0;
    while i < v.len()
        invariant
            i <= v.len(),
            forall|j: int| 0 <= j < i ==> v@[j]@ != s@,
        decreases v.len() - i,
    {
        if v[i] == *s {
            assert(string_views(v@)[i as int] == s@);
            return true;
        }
        i = i + 1;
    }
    assert(!string_views(v@).contains(s@)) by {
        if string_views(v@).contains(s@) {
            let j = choose|j: int| 0 <= j < string_views(v@).len() && string_views(v@)[j] == s@;
            assert(v@[j]@ == s@);
        }
    }
    false
}

} // verus!
