//! Target-profile resolution.
//!
//! A target triple has the shape `arch-vendor-profile`.  The resolver
//! accepts a triple exactly when it splits into three dash-delimited
//! segments and the last segment names a declared profile; any other
//! shape means "not my target" and yields absence rather than an error.
//! Resolution depends on nothing but the triple itself, so it is safe to
//! call before any other part of the backend is initialized.

use vstd::prelude::*;

use crate::bytes::bytes_eq;

verus! {

/// The dash byte that delimits the segments of a target triple.
pub const DASH: u8 = 45;

/// Whether a segment contains no occurrence of the separator.
pub open spec fn sep_free(s: Seq<u8>, sep: u8) -> bool {
    forall|i: int| 0 <= i < s.len() ==> s[i] != sep
}

/// The segments of `s` delimited by `sep`, in order.  An empty input has
/// one empty segment; a separator at either end contributes an empty
/// segment on that side.
pub open spec fn split_spec(s: Seq<u8>, sep: u8) -> Seq<Seq<u8>>
    decreases s.len(),
{
    if s.len() == 0 {
        seq![Seq::<u8>::empty()]
    } else if s[0] == sep {
        seq![Seq::<u8>::empty()] + split_spec(s.skip(1), sep)
    } else {
        let rest = split_spec(s.skip(1), sep);
        seq![seq![s[0]] + rest[0]] + rest.skip(1)
    }
}

/// A separator-free sequence is its own single segment.
pub proof fn lemma_split_sep_free(s: Seq<u8>, sep: u8)
    requires
        sep_free(s, sep),
    ensures
        split_spec(s, sep) =~= seq![s],
    decreases s.len(),
{
    if s.len() != 0 {
        assert(s[0] != sep);
        assert(sep_free(s.skip(1), sep)) by {
            assert(forall|i: int| 0 <= i < s.skip(1).len() ==> s.skip(1)[i] == s[i + 1]);
        }
        lemma_split_sep_free(s.skip(1), sep);
        let rest = split_spec(s.skip(1), sep);
        assert(rest.len() == 1 && rest[0] == s.skip(1));
        assert(seq![s[0]] + rest[0] =~= s);
        assert(rest.skip(1) =~= Seq::<Seq<u8>>::empty());
        assert(seq![seq![s[0]] + rest[0]] + rest.skip(1) =~= seq![s]);
    } else {
        assert(s =~= Seq::<u8>::empty());
        assert(seq![Seq::<u8>::empty()] =~= seq![s]);
    }
}

/// A leading separator-free segment, a separator, and a remainder split
/// into that segment followed by the remainder's segments.
pub proof fn lemma_split_lead(p: Seq<u8>, s: Seq<u8>, sep: u8)
    requires
        sep_free(p, sep),
    ensures
        split_spec(p + seq![sep] + s, sep) =~= seq![p] + split_spec(s, sep),
    decreases p.len(),
{
    let whole = p + seq![sep] + s;
    if p.len() == 0 {
        assert(p =~= Seq::<u8>::empty());
        assert(whole =~= seq![sep] + s);
        assert(whole[0] == sep);
        assert(whole.skip(1) =~= s);
        assert(seq![Seq::<u8>::empty()] + split_spec(s, sep) =~= seq![p] + split_spec(s, sep));
    } else {
        assert(whole[0] == p[0]);
        assert(p[0] != sep);
        assert(sep_free(p.skip(1), sep)) by {
            assert(forall|i: int| 0 <= i < p.skip(1).len() ==> p.skip(1)[i] == p[i + 1]);
        }
        lemma_split_lead(p.skip(1), s, sep);
        assert(whole.skip(1) =~= p.skip(1) + seq![sep] + s);
        let rest = split_spec(whole.skip(1), sep);
        assert(rest =~= seq![p.skip(1)] + split_spec(s, sep));
        assert(seq![p[0]] + rest[0] =~= p);
        assert(rest.skip(1) =~= split_spec(s, sep));
    }
}

/// The views of a sequence of owned byte strings.
pub open spec fn views(vs: Seq<Vec<u8>>) -> Seq<Seq<u8>> {
    vs.map_values(|v: Vec<u8>| v@)
}

/// Splits a byte slice at every occurrence of `sep`.
pub fn split_bytes(b: &[u8], sep: u8) -> (r: Vec<Vec<u8>>)
    ensures
        views(r@) == split_spec(b@, sep),
{
    let n = b.len();
    let mut segs: Vec<Vec<u8>> = Vec::new();
    let mut cur: Vec<u8> = Vec::new();
    let mut i: usize = 0;
    proof {
        assert(views(segs@) =~= Seq::<Seq<u8>>::empty());
        assert(b@.subrange(0, n as int) =~= b@);
        assert(views(segs@) + split_spec(b@, sep) =~= split_spec(b@, sep));
    }
    while i < n
        invariant
            n == b@.len(),
            0 <= i <= n,
            cur@.len() <= i,
            sep_free(cur@, sep),
            cur@ == b@.subrange(i - cur@.len(), i as int),
            split_spec(b@, sep) == views(segs@) + split_spec(
                b@.subrange(i - cur@.len(), n as int),
                sep,
            ),
        decreases n - i,
    {
        let ghost seg_start = i - cur@.len();
        if b[i] == sep {
            proof {
                assert(b@.subrange(seg_start, n as int) =~= cur@ + seq![sep] + b@.subrange(
                    i + 1,
                    n as int,
                ));
                lemma_split_lead(cur@, b@.subrange(i + 1, n as int), sep);
            }
            segs.push(cur);
            proof {
                assert(views(segs@) =~= views(segs@.drop_last()).push(cur@));
                assert(views(segs@.drop_last()) + (seq![cur@] + split_spec(
                    b@.subrange(i + 1, n as int),
                    sep,
                )) =~= views(segs@) + split_spec(b@.subrange(i + 1, n as int), sep));
            }
            cur = Vec::new();
            proof {
                assert(cur@ =~= b@.subrange(i + 1 - cur@.len(), i + 1));
            }
        } else {
            cur.push(b[i]);
            proof {
                assert(cur@ =~= b@.subrange(i + 1 - cur@.len(), i + 1));
            }
        }
        i += 1;
    }
    proof {
        assert(b@.subrange(i - cur@.len(), n as int) =~= cur@);
        lemma_split_sep_free(cur@, sep);
    }
    segs.push(cur);
    proof {
        assert(views(segs@) =~= views(segs@.drop_last()).push(cur@));
        assert(views(segs@.drop_last()) + seq![cur@] =~= views(segs@));
    }
    segs
}

/// A declared profile of the output dialect.  The closed set currently
/// holds exactly one variant.
#[derive(Clone, Copy, PartialEq, Eq, Structural, Debug)]
pub enum QirProfile {
    Base,
}

/// The bytes of the one declared profile tag, `base`.
pub open spec fn base_tag() -> Seq<u8> {
    seq![98u8, 97u8, 115u8, 101u8]
}

/// Whether a segment names a declared profile.
pub open spec fn is_profile_tag(s: Seq<u8>) -> bool {
    s == base_tag()
}

/// The owned bytes of the `base` profile tag.
pub fn base_tag_bytes() -> (r: Vec<u8>)
    ensures
        r@ == base_tag(),
{
    let mut v: Vec<u8> = Vec::new();
    v.push(98);
    v.push(97);
    v.push(115);
    v.push(101);
    assert(v@ =~= base_tag());
    v
}

/// Matches a profile tag against the closed set of declared profiles.
pub fn parse_profile(tag: &[u8]) -> (r: Option<QirProfile>)
    ensures
        r == if is_profile_tag(tag@) {
            Some(QirProfile::Base)
        } else {
            None::<QirProfile>
        },
{
    let base = base_tag_bytes();
    if bytes_eq(tag, base.as_slice()) {
        Some(QirProfile::Base)
    } else {
        None
    }
}

/// The capability switches of the resolved target.  Only the fields the
/// backend reads are modeled; the defaults mirror a conservative host.
#[derive(Clone, Copy, PartialEq, Eq, Structural, Debug)]
pub struct TargetOptions {
    /// Widest atomic memory access the target supports, in bits.  The
    /// resolved target caps this at zero: no atomic access is available.
    pub max_atomic_width: Option<u32>,
    /// Whether the target can produce dynamically linked output.
    pub dynamic_linking: bool,
}

impl Default for TargetOptions {
    /// The neutral option set before target-specific adjustment.
    fn default() -> (r: Self)
        ensures
            r.max_atomic_width is None,
            !r.dynamic_linking,
    {
        TargetOptions { max_atomic_width: None, dynamic_linking: false }
    }
}

/// Produces the option set of the resolved target: atomics disabled,
/// dynamic linking allowed.
pub fn generate_qir_target_options() -> (r: TargetOptions)
    ensures
        r == qir_target_options(),
{
    let mut options = TargetOptions::default();
    options.max_atomic_width = Some(0);
    options.dynamic_linking = true;
    options
}

/// The option set every resolved target carries.
pub open spec fn qir_target_options() -> TargetOptions {
    TargetOptions { max_atomic_width: Some(0u32), dynamic_linking: true }
}

/// A resolved target descriptor.
#[derive(Debug)]
pub struct Target {
    /// The fixed architecture tag.
    pub arch: Vec<u8>,
    /// The data-layout string.
    pub data_layout: Vec<u8>,
    /// Pointer width in bits.
    pub pointer_width: u32,
    /// The normalized `arch-vendor-profile` name of the target.
    pub llvm_target: Vec<u8>,
    /// Capability switches.
    pub options: TargetOptions,
}

/// The mathematical value of a [`Target`].
pub struct TargetView {
    pub arch: Seq<u8>,
    pub data_layout: Seq<u8>,
    pub pointer_width: u32,
    pub llvm_target: Seq<u8>,
    pub options: TargetOptions,
}

impl View for Target {
    type V = TargetView;

    open spec fn view(&self) -> TargetView {
        TargetView {
            arch: self.arch@,
            data_layout: self.data_layout@,
            pointer_width: self.pointer_width,
            llvm_target: self.llvm_target@,
            options: self.options,
        }
    }
}

/// The bytes of the fixed architecture tag, `qir`.
pub open spec fn qir_arch() -> Seq<u8> {
    seq![113u8, 105u8, 114u8]
}

/// The bytes of the data-layout string, `e` (little endian).
pub open spec fn qir_data_layout() -> Seq<u8> {
    seq![101u8]
}

/// The bytes of `qir-unknown-`, the fixed leading part of the normalized
/// target name: the architecture is constant and the vendor is reported
/// as unknown, whatever the input triple carried.
pub open spec fn llvm_target_prefix() -> Seq<u8> {
    qir_arch() + seq![DASH] + seq![117u8, 110u8, 107u8, 110u8, 111u8, 119u8, 110u8] + seq![DASH]
}

/// Whether the resolver owns a triple: it must split into exactly three
/// dash-delimited segments, and the last segment must name a declared
/// profile.
pub open spec fn resolve_accepts(s: Seq<u8>) -> bool {
    &&& split_spec(s, DASH).len() == 3
    &&& is_profile_tag(split_spec(s, DASH)[2])
}

/// The descriptor the resolver yields for an accepted triple.
pub open spec fn resolve_spec(s: Seq<u8>) -> Option<TargetView> {
    if resolve_accepts(s) {
        Some(
            TargetView {
                arch: qir_arch(),
                data_layout: qir_data_layout(),
                pointer_width: 64,
                llvm_target: llvm_target_prefix() + split_spec(s, DASH)[2],
                options: qir_target_options(),
            },
        )
    } else {
        None
    }
}

/// The owned bytes of `qir-unknown-`.
fn llvm_target_prefix_bytes() -> (r: Vec<u8>)
    ensures
        r@ == llvm_target_prefix(),
{
    let mut v: Vec<u8> = Vec::new();
    v.push(113);
    v.push(105);
    v.push(114);
    v.push(DASH);
    v.push(117);
    v.push(110);
    v.push(107);
    v.push(110);
    v.push(111);
    v.push(119);
    v.push(110);
    v.push(DASH);
    assert(v@ =~= llvm_target_prefix());
    v
}

/// Resolves a target triple to a target descriptor.
///
/// Absence means "not my target" and is recoverable: a triple that does
/// not split into exactly three segments, or whose profile tag is not
/// declared, belongs to some other backend.
pub fn resolve(triple: &[u8]) -> (r: Option<Target>)
    ensures
        r is Some <==> resolve_spec(triple@) is Some,
        r matches Some(t) ==> resolve_spec(triple@) == Some(t@),
{
    let parts = split_bytes(triple, DASH);
    proof {
        assert(parts@.len() == views(parts@).len());
    }
    if parts.len() != 3 {
        return None;
    }
    let raw_profile: &Vec<u8> = &parts[2];
    proof {
        assert(views(parts@)[2] == raw_profile@);
    }
    if parse_profile(raw_profile.as_slice()).is_none() {
        return None;
    }
    let mut llvm_target = llvm_target_prefix_bytes();
    crate::bytes::extend_bytes(&mut llvm_target, raw_profile.as_slice());

    let mut arch: Vec<u8> = Vec::new();
    arch.push(113);
    arch.push(105);
    arch.push(114);
    assert(arch@ =~= qir_arch());

    let mut data_layout: Vec<u8> = Vec::new();
    data_layout.push(101);
    assert(data_layout@ =~= qir_data_layout());

    Some(
        Target {
            arch,
            data_layout,
            pointer_width: 64,
            llvm_target,
            options: generate_qir_target_options(),
        },
    )
}

/// Law: a triple of exactly three dash-delimited segments whose last
/// segment names a declared profile resolves to a descriptor with
/// pointer width 64 and the atomic access width capped at zero; a triple
/// with any other segment count resolves to absence.
pub proof fn lemma_resolve_profile(s: Seq<u8>)
    ensures
        resolve_accepts(s) ==> (resolve_spec(s) matches Some(t) && t.pointer_width == 64
            && t.options.max_atomic_width == Some(0u32) && t.options.dynamic_linking),
        split_spec(s, DASH).len() != 3 ==> resolve_spec(s) is None,
{
}

} // verus!
