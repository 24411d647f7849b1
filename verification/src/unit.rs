//! The per-unit compilation lifecycle.
//!
//! A compilation unit is translated in two passes: first every item is
//! predefined (a forward declaration of its symbol, linkage and
//! visibility), so that intra-unit forward references resolve; only then
//! is each item's body translated.  Translation is deterministic and
//! total: an item whose construct has no lowering fails the whole build.
//! A finalized unit serializes into one module payload through the
//! module buffer wire format.

use vstd::prelude::*;

use crate::buffer::{bytes_of_word, word_of_bytes};
use crate::errors::BuildError;

verus! {

/// The output kind of a module.
#[derive(Clone, Copy, PartialEq, Eq, Structural, Debug)]
pub enum ModuleKind {
    Regular,
    Allocator,
    Metadata,
}

/// The compiled output of one unit.
#[derive(Debug)]
pub struct Module {
    /// Module name, unique within a build.
    pub name: Vec<u8>,
    /// Opaque serialized payload in the module buffer wire format.
    pub payload: Vec<u8>,
    pub kind: ModuleKind,
}

/// The mathematical value of a [`Module`].
#[verifier::ext_equal]
pub struct ModuleView {
    pub name: Seq<u8>,
    pub payload: Seq<u8>,
    pub kind: ModuleKind,
}

impl View for Module {
    type V = ModuleView;

    open spec fn view(&self) -> ModuleView {
        ModuleView { name: self.name@, payload: self.payload@, kind: self.kind }
    }
}

/// The linkage of a predefined symbol.
#[derive(Clone, Copy, PartialEq, Eq, Structural, Debug)]
pub enum Linkage {
    External,
    Internal,
}

/// The visibility of a predefined symbol.
#[derive(Clone, Copy, PartialEq, Eq, Structural, Debug)]
pub enum Visibility {
    Default,
    Hidden,
}

/// One top-level item of a compilation unit: a symbol to forward
/// declare, and the construct code its body lowers through.
#[derive(Debug)]
pub struct UnitItem {
    pub symbol: Vec<u8>,
    pub linkage: Linkage,
    pub visibility: Visibility,
    /// Index into the data-driven opcode-to-output table.
    pub construct: u32,
}

/// The mathematical value of a [`UnitItem`].
#[verifier::ext_equal]
pub struct UnitItemView {
    pub symbol: Seq<u8>,
    pub linkage: Linkage,
    pub visibility: Visibility,
    pub construct: u32,
}

impl View for UnitItem {
    type V = UnitItemView;

    open spec fn view(&self) -> UnitItemView {
        UnitItemView {
            symbol: self.symbol@,
            linkage: self.linkage,
            visibility: self.visibility,
            construct: self.construct,
        }
    }
}

/// An independently schedulable partition of the program: an identifier
/// and its top-level items in the deterministic order the frontend
/// fixed.  That order is never changed here; reproducible builds depend
/// on it.
#[derive(Debug)]
pub struct CompilationUnit {
    pub name: Vec<u8>,
    pub items: Vec<UnitItem>,
}

/// The mathematical value of a [`CompilationUnit`].
#[verifier::ext_equal]
pub struct UnitView {
    pub name: Seq<u8>,
    pub items: Seq<UnitItemView>,
}

impl View for CompilationUnit {
    type V = UnitView;

    open spec fn view(&self) -> UnitView {
        UnitView { name: self.name@, items: self.items@.map_values(|it: UnitItem| it@) }
    }
}

/// The declared opcode range of the lowering table: one byte of opcode
/// space.  Every construct code below the limit has a lowering; any
/// other code is untranslatable and fails the build.
pub const CONSTRUCT_LIMIT: u32 = 256;

/// Whether the lowering table declares this construct code.
pub open spec fn construct_known(c: u32) -> bool {
    c < CONSTRUCT_LIMIT
}

/// The output record of a declared construct: its code in the wire
/// format's word encoding.
pub open spec fn lowered_construct(c: u32) -> Seq<u8> {
    bytes_of_word(c)
}

/// The byte tag of a linkage.
pub open spec fn linkage_byte(l: Linkage) -> u8 {
    match l {
        Linkage::External => 0,
        Linkage::Internal => 1,
    }
}

/// The byte tag of a visibility.
pub open spec fn visibility_byte(v: Visibility) -> u8 {
    match v {
        Visibility::Default => 0,
        Visibility::Hidden => 1,
    }
}

/// The forward-declaration record of one item: the symbol length as a
/// wire word, the symbol bytes, and the linkage and visibility tags.
pub open spec fn decl_bytes(it: UnitItemView) -> Seq<u8> {
    bytes_of_word(it.symbol.len() as u32) + it.symbol + seq![
        linkage_byte(it.linkage),
        visibility_byte(it.visibility),
    ]
}

/// The declaration section: every item's record, in unit order.
pub open spec fn decls_bytes(items: Seq<UnitItemView>) -> Seq<u8>
    decreases items.len(),
{
    if items.len() == 0 {
        Seq::empty()
    } else {
        decl_bytes(items[0]) + decls_bytes(items.skip(1))
    }
}

/// The body section: every item's lowered construct, in unit order.
pub open spec fn body_bytes(items: Seq<UnitItemView>) -> Seq<u8>
    decreases items.len(),
{
    if items.len() == 0 {
        Seq::empty()
    } else {
        lowered_construct(items[0].construct) + body_bytes(items.skip(1))
    }
}

/// Appending an item appends its declaration record.
pub proof fn lemma_decls_snoc(items: Seq<UnitItemView>, it: UnitItemView)
    ensures
        decls_bytes(items.push(it)) =~= decls_bytes(items) + decl_bytes(it),
    decreases items.len(),
{
    if items.len() == 0 {
        assert(items.push(it)[0] == it);
        assert(items.push(it).skip(1) =~= Seq::<UnitItemView>::empty());
        assert(decls_bytes(items.push(it)) =~= decl_bytes(it) + Seq::<u8>::empty());
        assert(decl_bytes(it) + Seq::<u8>::empty() =~= Seq::<u8>::empty() + decl_bytes(it));
    } else {
        assert(items.push(it)[0] == items[0]);
        assert(items.push(it).skip(1) =~= items.skip(1).push(it));
        lemma_decls_snoc(items.skip(1), it);
        let a = decl_bytes(items[0]);
        let b = decls_bytes(items.skip(1));
        let c = decl_bytes(it);
        assert(decls_bytes(items.push(it)) == a + decls_bytes(items.push(it).skip(1)));
        assert(decls_bytes(items.push(it).skip(1)) == b + c);
        assert(a + (b + c) =~= (a + b) + c);
    }
}

/// Appending an item appends its lowered construct.
pub proof fn lemma_bodies_snoc(items: Seq<UnitItemView>, it: UnitItemView)
    ensures
        body_bytes(items.push(it)) =~= body_bytes(items) + lowered_construct(it.construct),
    decreases items.len(),
{
    if items.len() == 0 {
        assert(items.push(it)[0] == it);
        assert(items.push(it).skip(1) =~= Seq::<UnitItemView>::empty());
        assert(body_bytes(Seq::<UnitItemView>::empty()) =~= Seq::<u8>::empty());
        assert(body_bytes(items.push(it)) == lowered_construct(items.push(it)[0].construct)
            + body_bytes(items.push(it).skip(1)));
        assert(body_bytes(items.push(it)) =~= lowered_construct(it.construct)
            + Seq::<u8>::empty());
        assert(lowered_construct(it.construct) + Seq::<u8>::empty() =~= Seq::<u8>::empty()
            + lowered_construct(it.construct));
    } else {
        assert(items.push(it)[0] == items[0]);
        assert(items.push(it).skip(1) =~= items.skip(1).push(it));
        lemma_bodies_snoc(items.skip(1), it);
        let a = lowered_construct(items[0].construct);
        let b = body_bytes(items.skip(1));
        let c = lowered_construct(it.construct);
        assert(body_bytes(items.push(it)) == a + body_bytes(items.push(it).skip(1)));
        assert(body_bytes(items.push(it).skip(1)) == b + c);
        assert(a + (b + c) =~= (a + b) + c);
    }
}

/// Whether every construct of the unit has a lowering.
pub open spec fn unit_translates(u: UnitView) -> bool {
    forall|i: int| 0 <= i < u.items.len() ==> construct_known(u.items[i].construct)
}

/// Machine limit: every symbol length must fit the wire word of its
/// declaration record.
pub open spec fn unit_wf(u: UnitView) -> bool {
    forall|i: int| 0 <= i < u.items.len() ==> u.items[i].symbol.len() <= 0xffff_ffff
}

/// The serialized payload of a fully translated unit: the declaration
/// section followed by the body section.
pub open spec fn payload_spec(u: UnitView) -> Seq<u8> {
    decls_bytes(u.items) + body_bytes(u.items)
}

/// The module a unit compiles to.
pub open spec fn module_spec(u: UnitView) -> ModuleView {
    ModuleView { name: u.name, payload: payload_spec(u), kind: ModuleKind::Regular }
}

/// The lifecycle phase of a unit compiler.
#[derive(Clone, Copy, PartialEq, Eq, Structural, Debug)]
pub enum CompilerPhase {
    Created,
    Predefining,
    Compiling,
    Finalized,
}

/// The per-unit translation state machine.
///
/// The phases run `Created` → `Predefining` → `Compiling` →
/// `Finalized`, and the two-pass discipline is enforced by contract:
/// every item must be predefined before any body is translated.
pub struct QirCodegenCompiler {
    /// The unit under translation.
    pub unit: CompilationUnit,
    pub phase: CompilerPhase,
    /// How many items have been forward declared.
    pub predefined: usize,
    /// The declaration section built so far.
    pub declarations: Vec<u8>,
    /// The body section, filled by the translation pass.
    pub bodies: Vec<u8>,
}

impl QirCodegenCompiler {
    /// The state invariant of the lifecycle.
    pub open spec fn wf(self) -> bool {
        &&& unit_wf(self.unit@)
        &&& self.predefined <= self.unit@.items.len()
        &&& self.declarations@ == decls_bytes(self.unit@.items.take(self.predefined as int))
        &&& (self.phase == CompilerPhase::Created ==> self.predefined == 0 && self.bodies@
            == Seq::<u8>::empty())
        &&& (self.phase == CompilerPhase::Predefining ==> self.bodies@ == Seq::<u8>::empty())
        &&& ((self.phase == CompilerPhase::Compiling || self.phase == CompilerPhase::Finalized)
            ==> self.predefined == self.unit@.items.len() && self.bodies@ == body_bytes(
            self.unit@.items,
        ))
    }

    /// Starts the lifecycle for one unit.
    pub fn new(unit: CompilationUnit) -> (r: Self)
        requires
            unit_wf(unit@),
        ensures
            r.wf(),
            r.phase == CompilerPhase::Created,
            r.unit@ == unit@,
    {
        let r = QirCodegenCompiler {
            unit,
            phase: CompilerPhase::Created,
            predefined: 0,
            declarations: Vec::new(),
            bodies: Vec::new(),
        };
        proof {
            assert(r.unit@.items.take(0) =~= Seq::<UnitItemView>::empty());
        }
        r
    }

    /// Forward declares the next item in unit order: its symbol,
    /// linkage and visibility, without a body.
    pub fn predefine(&mut self)
        requires
            old(self).wf(),
            old(self).phase == CompilerPhase::Created || old(self).phase
                == CompilerPhase::Predefining,
            old(self).predefined < old(self).unit@.items.len(),
        ensures
            final(self).wf(),
            final(self).phase == CompilerPhase::Predefining,
            final(self).unit@ == old(self).unit@,
            final(self).predefined == old(self).predefined + 1,
    {
        let ghost done = self.unit@.items.take(self.predefined as int);
        let n = self.unit.items.len();
        let i = self.predefined;
        let ghost itv = self.unit@.items[i as int];
        proof {
            assert(itv.symbol.len() <= 0xffff_ffff);
        }
        let len32: u32 = self.unit.items[i].symbol.len() as u32;
        self.declarations.push((len32 & 0xff) as u8);
        self.declarations.push(((len32 >> 8u32) & 0xff) as u8);
        self.declarations.push(((len32 >> 16u32) & 0xff) as u8);
        self.declarations.push(((len32 >> 24u32) & 0xff) as u8);
        let symbol_copy = crate::bytes::copy_bytes(&self.unit.items[i].symbol);
        crate::bytes::extend_bytes(&mut self.declarations, symbol_copy.as_slice());
        let linkage_tag: u8 = match self.unit.items[i].linkage {
            Linkage::External => 0,
            Linkage::Internal => 1,
        };
        let visibility_tag: u8 = match self.unit.items[i].visibility {
            Visibility::Default => 0,
            Visibility::Hidden => 1,
        };
        self.declarations.push(linkage_tag);
        self.declarations.push(visibility_tag);
        proof {
            assert(self.declarations@ =~= decls_bytes(done) + decl_bytes(itv));
            lemma_decls_snoc(done, itv);
            assert(done.push(itv) =~= self.unit@.items.take(self.predefined + 1));
        }
        self.predefined = i + 1;
        self.phase = CompilerPhase::Predefining;
    }

    /// Translates every predefined item's body through the lowering
    /// table, in unit order.  Requires the predefinition pass to have
    /// covered the whole unit.  An item whose construct the table does
    /// not declare fails fatally, reporting the unit, the item and the
    /// construct; no partial output is kept.
    pub fn compile(&mut self) -> (r: Result<(), BuildError>)
        requires
            old(self).wf(),
            old(self).phase == CompilerPhase::Created || old(self).phase
                == CompilerPhase::Predefining,
            old(self).predefined == old(self).unit@.items.len(),
        ensures
            final(self).unit@ == old(self).unit@,
            unit_translates(old(self).unit@) ==> (r matches Ok(u) && final(self).wf()
                && final(self).phase == CompilerPhase::Compiling),
            !unit_translates(old(self).unit@) ==> *final(self) == *old(self),
            !unit_translates(old(self).unit@) ==> (r matches Err(e) && e
                matches BuildError::UnitTranslationFailure { unit, item, construct } && unit@
                == old(self).unit@.name && 0 <= item < old(self).unit@.items.len()
                && !construct_known(old(self).unit@.items[item as int].construct) && construct
                == old(self).unit@.items[item as int].construct && (forall|j: int|
                0 <= j < item ==> construct_known(old(self).unit@.items[j].construct))),
    {
        let n = self.unit.items.len();
        let mut out: Vec<u8> = Vec::new();
        let mut i: usize = 0;
        proof {
            assert(self.unit@.items.take(0) =~= Seq::<UnitItemView>::empty());
        }
        while i < n
            invariant
                n == self.unit@.items.len(),
                0 <= i <= n,
                out@ == body_bytes(self.unit@.items.take(i as int)),
                forall|j: int| 0 <= j < i ==> construct_known(self.unit@.items[j].construct),
            decreases n - i,
        {
            let ghost done = self.unit@.items.take(i as int);
            let c = self.unit.items[i].construct;
            if c >= CONSTRUCT_LIMIT {
                let unit_name = crate::bytes::copy_bytes(&self.unit.name);
                return Err(
                    BuildError::UnitTranslationFailure { unit: unit_name, item: i, construct: c },
                );
            }
            out.push((c & 0xff) as u8);
            out.push(((c >> 8u32) & 0xff) as u8);
            out.push(((c >> 16u32) & 0xff) as u8);
            out.push(((c >> 24u32) & 0xff) as u8);
            proof {
                assert(out@ =~= body_bytes(done) + lowered_construct(c));
                lemma_bodies_snoc(done, self.unit@.items[i as int]);
                assert(done.push(self.unit@.items[i as int]) =~= self.unit@.items.take(i + 1));
            }
            i += 1;
        }
        proof {
            assert(self.unit@.items.take(n as int) =~= self.unit@.items);
        }
        self.bodies = out;
        self.phase = CompilerPhase::Compiling;
        Ok(())
    }

    /// Seals the unit and serializes it through the module buffer wire
    /// format, yielding the module and a scheduling-cost hint (zero:
    /// unmeasured).
    pub fn finalize(self) -> (r: (Module, u64))
        requires
            self.wf(),
            self.phase == CompilerPhase::Compiling,
        ensures
            r.0@ == module_spec(self.unit@),
            r.1 == 0,
    {
        let mut sealed = self;
        sealed.phase = CompilerPhase::Finalized;
        let QirCodegenCompiler { unit, phase: _, predefined: _, mut declarations, bodies } =
            sealed;
        proof {
            assert(unit@.items.take(unit@.items.len() as int) =~= unit@.items);
        }
        crate::bytes::extend_bytes(&mut declarations, bodies.as_slice());
        let module = Module { name: unit.name, payload: declarations, kind: ModuleKind::Regular };
        (module, 0)
    }
}

/// Drives one unit through the whole lifecycle: forward declarations in
/// deterministic unit order, then body translation, then finalization.
/// The result is a function of the unit alone, so repeated builds of
/// the same unit yield byte-identical payloads.
pub fn compile_unit(unit: CompilationUnit) -> (r: Result<(Module, u64), BuildError>)
    requires
        unit_wf(unit@),
    ensures
        unit_translates(unit@) ==> (r matches Ok(m) && m.0@ == module_spec(unit@) && m.1 == 0),
        !unit_translates(unit@) ==> (r matches Err(e) && e
            matches BuildError::UnitTranslationFailure { unit: u, item, construct } && u@
            == unit@.name),
{
    let ghost uv = unit@;
    let mut compiler = QirCodegenCompiler::new(unit);
    let n = compiler.unit.items.len();
    let mut i: usize = 0;
    while i < n
        invariant
            compiler.wf(),
            compiler.unit@ == uv,
            n == compiler.unit@.items.len(),
            0 <= i <= n,
            compiler.predefined == i,
            i == 0 ==> compiler.phase == CompilerPhase::Created,
            i > 0 ==> compiler.phase == CompilerPhase::Predefining,
        decreases n - i,
    {
        compiler.predefine();
        i += 1;
    }
    match compiler.compile() {
        Ok(_) => {},
        Err(e) => {
            return Err(e);
        },
    }
    Ok(compiler.finalize())
}

} // verus!
