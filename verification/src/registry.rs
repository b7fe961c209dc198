//! Finds the TurboModules that a specification file registers: the names passed to
//! `TurboModuleRegistry.get(..)`/`getEnforcing(..)`, with the shape of the specification
//! interfaces checked (their members must be plain method signatures or function-typed
//! properties).
use vstd::prelude::*;
use vstd::string::*;
use crate::analyzer::{
    msg_invalid_computed_sig, msg_invalid_optional_sig, msg_invalid_registry_method,
    msg_invalid_spec,
};
use crate::keyed::{has_key, key_values, sorted_insert, KeyedTexts};
use crate::parser::{diag_view, diags_view, Diagnostic, Span};
use crate::text::{copy_str, str_eq, views};
use crate::ts::{
    spec_symbol_of, Scoping, TsArgument, TsCall, TsCallee, TsHeritage, TsImport, TsImportSpecifier,
    TsInterface, TsItem, TsSignature, TsType,
};

verus! {

/// A module registered in a specification file.
pub struct TurboModuleSpec {
    /// Native module name
    pub mod_name: String,
}

impl TurboModuleSpec {
    pub fn new(mod_name: &String) -> (r: Self)
        ensures
            r.mod_name@ == mod_name@,
    {
        TurboModuleSpec { mod_name: copy_str(mod_name.as_str()) }
    }
}

pub open spec fn msg_generic_required() -> Seq<char> {
    "Module specification generic argument is required"@
}

pub open spec fn msg_generic_not_one() -> Seq<char> {
    "Module specification generic argument must be exactly one"@
}

pub open spec fn msg_duplicate_module() -> Seq<char> {
    "Duplicate module name"@
}

/// What the scan has found so far.
pub ghost struct ScanV {
    pub diagnostics: Seq<(Seq<char>, Span)>,
    /// The symbol of the imported `TurboModuleRegistry`'s `TurboModule` interface.
    pub type_sym: Option<u32>,
    /// The symbol of the imported `TurboModuleRegistry`.
    pub reg_sym: Option<u32>,
    /// The registered module names, ascending (each stored under itself).
    pub specs: Seq<(Seq<char>, Seq<char>)>,
}

pub open spec fn scan_initial() -> ScanV {
    ScanV { diagnostics: Seq::empty(), type_sym: None, reg_sym: None, specs: Seq::empty() }
}

pub open spec fn scan_with_diag(st: ScanV, d: (Seq<char>, Span)) -> ScanV {
    ScanV { diagnostics: st.diagnostics.push(d), ..st }
}

/// What an import specifier of `react-native` records: the symbols of `TurboModule` and
/// `TurboModuleRegistry` imported by name.
pub open spec fn scan_import_specifier(st: ScanV, sp: TsImportSpecifier) -> ScanV {
    match sp {
        TsImportSpecifier::Named { imported, local_symbol } => match local_symbol {
            Some(sym) => if imported@ == "TurboModule"@ {
                ScanV { type_sym: Some(sym), ..st }
            } else if imported@ == "TurboModuleRegistry"@ {
                ScanV { reg_sym: Some(sym), ..st }
            } else {
                st
            },
            None => st,
        },
        _ => st,
    }
}

pub open spec fn scan_import_specifiers(st: ScanV, sps: Seq<TsImportSpecifier>) -> ScanV
    decreases sps.len(),
{
    if sps.len() == 0 {
        st
    } else {
        scan_import_specifier(scan_import_specifiers(st, sps.drop_last()), sps.last())
    }
}

pub open spec fn scan_import(st: ScanV, it: TsImport) -> ScanV {
    if it.source@ != "react-native"@ {
        st
    } else {
        match it.specifiers {
            None => st,
            Some(sps) => scan_import_specifiers(st, sps@),
        }
    }
}

/// Whether an interface extends the imported `TurboModule` (named by an identifier).
pub open spec fn scan_is_spec(st: ScanV, sc: Scoping, it: TsInterface) -> bool {
    exists|i: int|
        0 <= i < it.extends@.len() && (#[trigger] it.extends@[i] matches TsHeritage::Identifier { ref_id }
            && spec_symbol_of(sc, ref_id) == st.type_sym)
}

/// The checks of a specification's members, from the first on: an optional or computed
/// member is an error that ends the checks, a `getConstants` method ends them, a property
/// that is not function-typed and any other member are errors that the checks go on after.
pub open spec fn scan_members(st: ScanV, body: Seq<TsSignature>, span: Span) -> ScanV
    decreases body.len(),
{
    if body.len() == 0 {
        st
    } else {
        match body[0] {
            TsSignature::Method(m) => if m.optional {
                scan_with_diag(st, (msg_invalid_optional_sig(), m.span))
            } else if m.computed {
                scan_with_diag(st, (msg_invalid_computed_sig(), m.span))
            } else if m.key matches Some(k) && k@ == "getConstants"@ {
                st
            } else {
                scan_members(st, body.drop_first(), span)
            },
            TsSignature::Property(p) => if p.optional {
                scan_with_diag(st, (msg_invalid_optional_sig(), p.span))
            } else if p.computed {
                scan_with_diag(st, (msg_invalid_computed_sig(), p.span))
            } else {
                let next = match p.type_annotation {
                    Some(TsType::Function) => st,
                    Some(_) => scan_with_diag(st, (msg_invalid_spec(), p.type_span)),
                    None => scan_with_diag(st, (msg_invalid_spec(), p.span)),
                };
                scan_members(next, body.drop_first(), span)
            },
            TsSignature::Other => scan_members(scan_with_diag(st, (msg_invalid_spec(), span)), body.drop_first(), span),
        }
    }
}

pub open spec fn scan_interface(st: ScanV, sc: Scoping, it: TsInterface) -> ScanV {
    if scan_is_spec(st, sc, it) {
        scan_members(st, it.body@, it.span)
    } else {
        st
    }
}

/// What a call records: for a `get`/`getEnforcing` call on the imported registry with one
/// type argument, the module name of its first argument (a string literal); otherwise the
/// error it gives, or nothing.
pub open spec fn scan_call(st: ScanV, sc: Scoping, call: TsCall) -> ScanV {
    match call.callee {
        TsCallee::Member { object_ref, object_span, property, .. } => if st.reg_sym != spec_symbol_of(sc, object_ref) {
            st
        } else {
            match call.type_arguments {
                None => scan_with_diag(st, (msg_generic_required(), call.span)),
                Some(args) => if args@.len() != 1 {
                    scan_with_diag(st, (msg_generic_not_one(), call.span))
                } else if !(property@ == "get"@ || property@ == "getEnforcing"@) {
                    scan_with_diag(st, (msg_invalid_registry_method(), object_span))
                } else if call.arguments@.len() > 0 && call.arguments@[0] is StringLiteral {
                    let value = call.arguments@[0]->StringLiteral_value;
                    let span = call.arguments@[0]->StringLiteral_span;
                    if has_key(st.specs, value@) {
                        scan_with_diag(st, (msg_duplicate_module(), span))
                    } else {
                        ScanV { specs: sorted_insert(st.specs, value@, value@), ..st }
                    }
                } else {
                    st
                },
            }
        },
        _ => st,
    }
}

pub open spec fn scan_item(st: ScanV, sc: Scoping, item: TsItem) -> ScanV {
    match item {
        TsItem::Import(it) => scan_import(st, it),
        TsItem::Interface(it) => scan_interface(st, sc, it),
        TsItem::Call(call) => scan_call(st, sc, call),
        _ => st,
    }
}

pub open spec fn scan_items(sc: Scoping, items: Seq<TsItem>) -> ScanV
    decreases items.len(),
{
    if items.len() == 0 {
        scan_initial()
    } else {
        scan_item(scan_items(sc, items.drop_last()), sc, items.last())
    }
}

/// The modules a specification file registers (their names, ascending), or the errors it has.
pub open spec fn spec_registered_modules(items: Seq<TsItem>, sc: Scoping) -> Result<Seq<Seq<char>>, Seq<(Seq<char>, Span)>> {
    let st = scan_items(sc, items);
    if st.diagnostics.len() > 0 {
        Err(st.diagnostics)
    } else {
        Ok(key_values(st.specs))
    }
}

/// The scan of a specification file for registered modules.
pub struct TurboModuleAnalyzer<'a> {
    pub diagnostics: Vec<Diagnostic>,
    scoping: &'a Scoping,
    /// TurboModule specs collected from the source, by name
    mod_specs: KeyedTexts,
    /// Symbol of the imported `TurboModule` interface
    mod_type_sym_id: Option<u32>,
    /// Symbol of the imported `TurboModuleRegistry`
    mod_reg_sym_id: Option<u32>,
}

impl<'a> TurboModuleAnalyzer<'a> {
    pub closed spec fn state(&self) -> ScanV {
        ScanV {
            diagnostics: diags_view(self.diagnostics@),
            type_sym: self.mod_type_sym_id,
            reg_sym: self.mod_reg_sym_id,
            specs: self.mod_specs@,
        }
    }

    pub closed spec fn scoping_of(&self) -> Scoping {
        *self.scoping
    }

    pub fn new(scoping: &'a Scoping) -> (r: Self)
        ensures
            r.state() == scan_initial(),
            r.scoping_of() == *scoping,
    {
        let r = TurboModuleAnalyzer {
            diagnostics: Vec::new(),
            scoping,
            mod_specs: KeyedTexts::new(),
            mod_type_sym_id: None,
            mod_reg_sym_id: None,
        };
        assert(r.state().diagnostics =~= Seq::<(Seq<char>, Span)>::empty());
        r
    }

    /// Records an error at a range.
    fn collect_error(&mut self, message: &str, span: Span)
        ensures
            final(self).state() == scan_with_diag(old(self).state(), (message@, span)),
            final(self).scoping_of() == old(self).scoping_of(),
    {
        let d = Diagnostic { message: copy_str(message), span };
        let ghost dv = diag_view(d);
        self.diagnostics.push(d);
        assert(self.state().diagnostics =~= old(self).state().diagnostics.push(dv));
    }

    /// Whether an interface extends the imported `TurboModule`.
    fn is_spec(&self, it: &TsInterface) -> (r: bool)
        ensures
            r == scan_is_spec(self.state(), self.scoping_of(), *it),
    {
        let n = it.extends.len();
        let mut i: usize = 0;
        while i < n
            invariant
                n == it.extends@.len(),
                i <= n,
                forall|j: int|
                    0 <= j < i ==> !(#[trigger] it.extends@[j] matches TsHeritage::Identifier { ref_id }
                        && spec_symbol_of(self.scoping_of(), ref_id) == self.state().type_sym),
            decreases n - i,
        {
            if let TsHeritage::Identifier { ref_id } = &it.extends[i] {
                let sym = self.scoping.symbol_of(*ref_id);
                if sym == self.mod_type_sym_id {
                    return true;
                }
            }
            i = i + 1;
        }
        false
    }

    fn visit_import_declaration_specifier(&mut self, it: &TsImportSpecifier)
        ensures
            final(self).state() == scan_import_specifier(old(self).state(), *it),
            final(self).scoping_of() == old(self).scoping_of(),
    {
        if let TsImportSpecifier::Named { imported, local_symbol } = it {
            if let Some(symbol_id) = local_symbol {
                if str_eq(imported.as_str(), "TurboModule") {
                    self.mod_type_sym_id = Some(*symbol_id);
                } else if str_eq(imported.as_str(), "TurboModuleRegistry") {
                    self.mod_reg_sym_id = Some(*symbol_id);
                }
            }
        }
    }

    pub fn visit_import_declaration(&mut self, it: &TsImport)
        ensures
            final(self).state() == scan_import(old(self).state(), *it),
            final(self).scoping_of() == old(self).scoping_of(),
    {
        if !str_eq(it.source.as_str(), "react-native") {
            return;
        }
        if let Some(specifiers) = &it.specifiers {
            let n = specifiers.len();
            let mut i: usize = 0;
            while i < n
                invariant
                    n == specifiers@.len(),
                    i <= n,
                    self.scoping_of() == old(self).scoping_of(),
                    self.state() == scan_import_specifiers(old(self).state(), specifiers@.take(i as int)),
                decreases n - i,
            {
                assert(specifiers@.take(i + 1).drop_last() =~= specifiers@.take(i as int));
                self.visit_import_declaration_specifier(&specifiers[i]);
                i = i + 1;
            }
            assert(specifiers@.take(n as int) =~= specifiers@);
        }
    }

    /// Checks the members of a specification interface.
    pub fn visit_ts_interface_declaration(&mut self, it: &TsInterface)
        ensures
            final(self).state() == scan_interface(old(self).state(), old(self).scoping_of(), *it),
            final(self).scoping_of() == old(self).scoping_of(),
    {
        if !self.is_spec(it) {
            return;
        }
        let body = &it.body;
        let n = body.len();
        let ghost goal = scan_members(old(self).state(), body@, it.span);
        let mut i: usize = 0;
        assert(body@.skip(0) =~= body@);
        while i < n
            invariant
                n == body@.len(),
                i <= n,
                self.scoping_of() == old(self).scoping_of(),
                scan_members(self.state(), body@.skip(i as int), it.span) == goal,
                goal == scan_interface(old(self).state(), old(self).scoping_of(), *it),
            decreases n - i,
        {
            let ghost rest = body@.skip(i as int);
            let ghost before = self.state();
            assert(rest[0] == body@[i as int]);
            assert(rest.drop_first() =~= body@.skip(i + 1));
            match &body[i] {
                TsSignature::Method(m) => {
                    if m.optional {
                        self.collect_error("Optional signature is not supported", m.span);
                        assert(scan_members(before, rest, it.span) == scan_with_diag(before, (msg_invalid_optional_sig(), m.span)));
                        return;
                    }
                    if m.computed {
                        self.collect_error("Computed signature is not supported", m.span);
                        assert(scan_members(before, rest, it.span) == scan_with_diag(before, (msg_invalid_computed_sig(), m.span)));
                        return;
                    }
                    if let Some(k) = &m.key {
                        if str_eq(k.as_str(), "getConstants") {
                            assert(scan_members(before, rest, it.span) == before);
                            return;
                        }
                    }
                },
                TsSignature::Property(p) => {
                    if p.optional {
                        self.collect_error("Optional signature is not supported", p.span);
                        assert(scan_members(before, rest, it.span) == scan_with_diag(before, (msg_invalid_optional_sig(), p.span)));
                        return;
                    }
                    if p.computed {
                        self.collect_error("Computed signature is not supported", p.span);
                        assert(scan_members(before, rest, it.span) == scan_with_diag(before, (msg_invalid_computed_sig(), p.span)));
                        return;
                    }
                    match &p.type_annotation {
                        Some(TsType::Function) => {},
                        Some(_) => self.collect_error("Invalid specification", p.type_span),
                        None => self.collect_error("Invalid specification", p.span),
                    }
                },
                TsSignature::Other => self.collect_error("Invalid specification", it.span),
            }
            i = i + 1;
        }
        assert(body@.skip(n as int) =~= Seq::<TsSignature>::empty());
    }

    /// Records the module a registry call registers.
    pub fn visit_call_expression(&mut self, it: &TsCall)
        ensures
            final(self).state() == scan_call(old(self).state(), old(self).scoping_of(), *it),
            final(self).scoping_of() == old(self).scoping_of(),
    {
        if let TsCallee::Member { object_ref, object_span, property, .. } = &it.callee {
            let sym = self.scoping.symbol_of(*object_ref);
            if self.mod_reg_sym_id != sym {
                return;
            }
            let spec_generics = match &it.type_arguments {
                Some(args) => args,
                None => {
                    self.collect_error("Module specification generic argument is required", it.span);
                    return;
                },
            };
            if spec_generics.len() != 1 {
                self.collect_error("Module specification generic argument must be exactly one", it.span);
                return;
            }
            if !(str_eq(property.as_str(), "get") || str_eq(property.as_str(), "getEnforcing")) {
                self.collect_error("Invalid TurboModuleRegistry method", *object_span);
                return;
            }
            if it.arguments.len() > 0 {
                if let TsArgument::StringLiteral { value, span } = &it.arguments[0] {
                    if self.mod_specs.contains_key(value.as_str()) {
                        self.collect_error("Duplicate module name", *span);
                        return;
                    }
                    self.mod_specs.insert(copy_str(value.as_str()), copy_str(value.as_str()));
                }
            }
        }
    }

    pub fn visit_item(&mut self, item: &TsItem)
        ensures
            final(self).state() == scan_item(old(self).state(), old(self).scoping_of(), *item),
            final(self).scoping_of() == old(self).scoping_of(),
    {
        match item {
            TsItem::Import(it) => self.visit_import_declaration(it),
            TsItem::Interface(it) => self.visit_ts_interface_declaration(it),
            TsItem::Call(call) => self.visit_call_expression(call),
            _ => {},
        }
    }

    /// Scans the items in order.
    pub fn visit_program(&mut self, items: &Vec<TsItem>)
        requires
            old(self).state() == scan_initial(),
        ensures
            final(self).state() == scan_items(old(self).scoping_of(), items@),
            final(self).scoping_of() == old(self).scoping_of(),
    {
        let n = items.len();
        let mut i: usize = 0;
        while i < n
            invariant
                n == items@.len(),
                i <= n,
                self.scoping_of() == old(self).scoping_of(),
                self.state() == scan_items(self.scoping_of(), items@.take(i as int)),
            decreases n - i,
        {
            assert(items@.take(i + 1).drop_last() =~= items@.take(i as int));
            self.visit_item(&items[i]);
            i = i + 1;
        }
        assert(items@.take(n as int) =~= items@);
    }

    /// The registered modules, by name in ascending order.
    pub fn into_specs(self) -> (r: Vec<(String, TurboModuleSpec)>)
        ensures
            r@.len() == key_values(self.state().specs).len(),
            forall|i: int|
                0 <= i < r@.len() ==> (#[trigger] r@[i]).0@ == key_values(self.state().specs)[i] && r@[i].1.mod_name@
                    == r@[i].0@,
    {
        let names = self.mod_specs.into_values();
        let n = names.len();
        let mut out: Vec<(String, TurboModuleSpec)> = Vec::new();
        let mut i: usize = 0;
        while i < n
            invariant
                n == names@.len(),
                views(names@) == key_values(self.state().specs),
                i <= n,
                out@.len() == i,
                forall|j: int|
                    0 <= j < i ==> (#[trigger] out@[j]).0@ == names@[j]@ && out@[j].1.mod_name@ == out@[j].0@,
            decreases n - i,
        {
            let spec = TurboModuleSpec::new(&names[i]);
            out.push((copy_str(names[i].as_str()), spec));
            i = i + 1;
        }
        out
    }
}

/// The modules a specification file registers, by name in ascending order, or the errors it
/// has (for the tool to report).
pub fn parse_schema(items: &Vec<TsItem>, scoping: &Scoping) -> (r: Result<Vec<(String, TurboModuleSpec)>, Vec<Diagnostic>>)
    ensures
        match spec_registered_modules(items@, *scoping) {
            Ok(names) => r matches Ok(v) && v@.len() == names.len() && forall|i: int|
                0 <= i < v@.len() ==> (#[trigger] v@[i]).0@ == names[i] && v@[i].1.mod_name@ == names[i],
            Err(ds) => r matches Err(e) && diags_view(e@) == ds,
        },
{
    let mut analyzer = TurboModuleAnalyzer::new(scoping);
    analyzer.visit_program(items);
    if analyzer.diagnostics.len() > 0 {
        let TurboModuleAnalyzer { diagnostics, .. } = analyzer;
        return Err(diagnostics);
    }
    Ok(analyzer.into_specs())
}

} // verus!
