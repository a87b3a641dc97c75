//! Building typed density functions from untyped definitions. A build
//! either succeeds, or fails with a malformed shape, a descriptive
//! reason, or an unresolved reference into the shared namespace.
use vstd::prelude::*;

use crate::density::AllInCellCache;
use crate::density::Clamp;
use crate::density::FlatCache;
use crate::density::Function;
use crate::density::Interpolated;
use crate::density::NoiseFunction;
use crate::density::OnceCache;
use crate::density::OneArgBuiltInFunction;
use crate::density::OneParamKind;
use crate::density::TwoDCache;
use crate::density::TwoParamBuiltInFunction;
use crate::density::TwoParamKind;
use crate::density::node_wf;
use crate::density::same_shape;
use crate::OwnedNameSpaceKey;

verus! {

/// An untyped density-function definition: raw parameters, references
/// into the shared namespace, and children.
#[derive(Debug)]
pub enum FunctionArgument {
    /// A constant value.
    Number(i64),
    /// A reference to a registered definition.
    Key(OwnedNameSpaceKey),
    Interpolated(Box<FunctionArgument>),
    /// A clamp with its raw `(min, max)` parameters.
    Clamp(Box<FunctionArgument>, i64, i64),
    OneParam(OneParamKind, Box<FunctionArgument>),
    TwoParam(TwoParamKind, Box<FunctionArgument>, Box<FunctionArgument>),
    /// A noise source with its raw amplitude.
    Noise(i64),
    FlatCache(Box<FunctionArgument>),
    TwoDCellCache(Box<FunctionArgument>),
    AllInCellCache(Box<FunctionArgument>),
    OnceCache(Box<FunctionArgument>),
}

/// Why a build failed.
#[derive(Debug)]
pub enum BuildDefResult {
    /// The definition's shape is malformed (a clamp whose bounds cross).
    InvalidFormat,
    /// A parameter is outside its documented range.
    DescriptiveError(&'static str),
    /// The referenced definition is not resolved yet; the offending
    /// argument is carried for the caller.
    NotFound(FunctionArgument),
}

/// The spec-level build failure, mirrored by `BuildDefResult` variant for
/// variant (the descriptive message text is not part of the contract).
pub enum BuildError {
    Malformed,
    BadParameter,
    Unresolved(FunctionArgument),
}

/// Whether a definition contains no namespace references.
pub open spec fn key_free(arg: FunctionArgument) -> bool
    decreases arg,
{
    match arg {
        FunctionArgument::Number(_) => true,
        FunctionArgument::Key(_) => false,
        FunctionArgument::Interpolated(a) => key_free(*a),
        FunctionArgument::Clamp(a, _, _) => key_free(*a),
        FunctionArgument::OneParam(_, a) => key_free(*a),
        FunctionArgument::TwoParam(_, a, b) => key_free(*a) && key_free(*b),
        FunctionArgument::Noise(_) => true,
        FunctionArgument::FlatCache(a) => key_free(*a),
        FunctionArgument::TwoDCellCache(a) => key_free(*a),
        FunctionArgument::AllInCellCache(a) => key_free(*a),
        FunctionArgument::OnceCache(a) => key_free(*a),
    }
}

/// The first registered definition under a namespaced name.
pub open spec fn find_def(
    defs: Seq<(OwnedNameSpaceKey, FunctionArgument)>,
    ns: Seq<char>,
    key: Seq<char>,
) -> Option<FunctionArgument>
    decreases defs.len(),
{
    if defs.len() == 0 {
        None
    } else if defs[0].0.namespace@ == ns && defs[0].0.key@ == key {
        Some(defs[0].1)
    } else {
        find_def(defs.subrange(1, defs.len() as int), ns, key)
    }
}

/// Resolving every reference of a definition against the namespace:
/// either the reference-free definition, or the first unresolved
/// reference, left to right, depth first.
pub open spec fn spec_expand(
    arg: FunctionArgument,
    defs: Seq<(OwnedNameSpaceKey, FunctionArgument)>,
) -> Result<FunctionArgument, BuildError>
    decreases arg,
{
    match arg {
        FunctionArgument::Number(v) => Ok(FunctionArgument::Number(v)),
        FunctionArgument::Key(k) => match find_def(defs, k.namespace@, k.key@) {
            Some(d) => Ok(d),
            None => Err(BuildError::Unresolved(FunctionArgument::Key(k))),
        },
        FunctionArgument::Interpolated(a) => match spec_expand(*a, defs) {
            Ok(e) => Ok(FunctionArgument::Interpolated(Box::new(e))),
            Err(err) => Err(err),
        },
        FunctionArgument::Clamp(a, lo, hi) => match spec_expand(*a, defs) {
            Ok(e) => Ok(FunctionArgument::Clamp(Box::new(e), lo, hi)),
            Err(err) => Err(err),
        },
        FunctionArgument::OneParam(k, a) => match spec_expand(*a, defs) {
            Ok(e) => Ok(FunctionArgument::OneParam(k, Box::new(e))),
            Err(err) => Err(err),
        },
        FunctionArgument::TwoParam(k, a, b) => match spec_expand(*a, defs) {
            Ok(e1) => match spec_expand(*b, defs) {
                Ok(e2) => Ok(FunctionArgument::TwoParam(k, Box::new(e1), Box::new(e2))),
                Err(err) => Err(err),
            },
            Err(err) => Err(err),
        },
        FunctionArgument::Noise(amp) => Ok(FunctionArgument::Noise(amp)),
        FunctionArgument::FlatCache(a) => match spec_expand(*a, defs) {
            Ok(e) => Ok(FunctionArgument::FlatCache(Box::new(e))),
            Err(err) => Err(err),
        },
        FunctionArgument::TwoDCellCache(a) => match spec_expand(*a, defs) {
            Ok(e) => Ok(FunctionArgument::TwoDCellCache(Box::new(e))),
            Err(err) => Err(err),
        },
        FunctionArgument::AllInCellCache(a) => match spec_expand(*a, defs) {
            Ok(e) => Ok(FunctionArgument::AllInCellCache(Box::new(e))),
            Err(err) => Err(err),
        },
        FunctionArgument::OnceCache(a) => match spec_expand(*a, defs) {
            Ok(e) => Ok(FunctionArgument::OnceCache(Box::new(e))),
            Err(err) => Err(err),
        },
    }
}

/// Validating a reference-free definition: either fine, or the first
/// fault, left to right, depth first. A clamp whose bounds cross is
/// malformed; a noise amplitude outside `[0, 2^31)` is a bad parameter;
/// a reference is unresolved by definition here.
pub open spec fn spec_validate(arg: FunctionArgument) -> Result<(), BuildError>
    decreases arg,
{
    match arg {
        FunctionArgument::Number(_) => Ok(()),
        FunctionArgument::Key(k) => Err(BuildError::Unresolved(FunctionArgument::Key(k))),
        FunctionArgument::Interpolated(a) => spec_validate(*a),
        FunctionArgument::Clamp(a, lo, hi) => if lo > hi {
            Err(BuildError::Malformed)
        } else {
            spec_validate(*a)
        },
        FunctionArgument::OneParam(_, a) => spec_validate(*a),
        FunctionArgument::TwoParam(_, a, b) => match spec_validate(*a) {
            Ok(()) => spec_validate(*b),
            Err(err) => Err(err),
        },
        FunctionArgument::Noise(amp) => if 0 <= amp < 0x8000_0000 {
            Ok(())
        } else {
            Err(BuildError::BadParameter)
        },
        FunctionArgument::FlatCache(a) => spec_validate(*a),
        FunctionArgument::TwoDCellCache(a) => spec_validate(*a),
        FunctionArgument::AllInCellCache(a) => spec_validate(*a),
        FunctionArgument::OnceCache(a) => spec_validate(*a),
    }
}

/// Whether a built node realizes a reference-free definition, with every
/// cache starting fresh: empty memo, no pass, a zero invocation count.
pub open spec fn matches_free(f: Function, arg: FunctionArgument) -> bool
    decreases arg,
{
    match arg {
        FunctionArgument::Number(v) => f == Function::Constant(v),
        FunctionArgument::Key(_) => false,
        FunctionArgument::Interpolated(a) => match f {
            Function::Interpolated(b) => matches_free(b.function, *a),
            _ => false,
        },
        FunctionArgument::Clamp(a, lo, hi) => match f {
            Function::Clamp(b) => b.min == lo && b.max == hi && matches_free(b.function, *a),
            _ => false,
        },
        FunctionArgument::OneParam(k, a) => match f {
            Function::OneParam(b) => b.kind == k && matches_free(b.param, *a),
            _ => false,
        },
        FunctionArgument::TwoParam(k, a1, a2) => match f {
            Function::TwoParam(b) => b.kind == k && matches_free(b.one, *a1) && matches_free(
                b.two,
                *a2,
            ),
            _ => false,
        },
        FunctionArgument::Noise(amp) => match f {
            Function::Noise(n) => n.amplitude == amp,
            _ => false,
        },
        FunctionArgument::FlatCache(a) => match f {
            Function::FlatCache(b) => matches_free(b.function, *a) && b.pass is None
                && b.memo@.len() == 0 && b.child_computes == 0,
            _ => false,
        },
        FunctionArgument::TwoDCellCache(a) => match f {
            Function::TwoDCellCache(b) => matches_free(b.function, *a) && b.pass is None
                && b.memo is None && b.child_computes == 0,
            _ => false,
        },
        FunctionArgument::AllInCellCache(a) => match f {
            Function::AllInCellCache(b) => matches_free(b.function, *a) && b.pass is None
                && b.memo is None && b.child_computes == 0,
            _ => false,
        },
        FunctionArgument::OnceCache(a) => match f {
            Function::OnceCache(b) => matches_free(b.function, *a) && b.memo is None
                && b.child_computes == 0,
            _ => false,
        },
    }
}

/// Two builds of one definition describe the same function.
pub proof fn lemma_build_unique(f1: Function, f2: Function, arg: FunctionArgument)
    requires
        matches_free(f1, arg),
        matches_free(f2, arg),
    ensures
        same_shape(f1, f2),
    decreases arg,
{
    match arg {
        FunctionArgument::Number(v) => {},
        FunctionArgument::Key(_) => {},
        FunctionArgument::Interpolated(a) => {
            match (f1, f2) {
                (Function::Interpolated(b1), Function::Interpolated(b2)) => {
                    lemma_build_unique(b1.function, b2.function, *a);
                },
                _ => {},
            }
        },
        FunctionArgument::Clamp(a, lo, hi) => {
            match (f1, f2) {
                (Function::Clamp(b1), Function::Clamp(b2)) => {
                    lemma_build_unique(b1.function, b2.function, *a);
                },
                _ => {},
            }
        },
        FunctionArgument::OneParam(k, a) => {
            match (f1, f2) {
                (Function::OneParam(b1), Function::OneParam(b2)) => {
                    lemma_build_unique(b1.param, b2.param, *a);
                },
                _ => {},
            }
        },
        FunctionArgument::TwoParam(k, a1, a2) => {
            match (f1, f2) {
                (Function::TwoParam(b1), Function::TwoParam(b2)) => {
                    lemma_build_unique(b1.one, b2.one, *a1);
                    lemma_build_unique(b1.two, b2.two, *a2);
                },
                _ => {},
            }
        },
        FunctionArgument::Noise(amp) => {},
        FunctionArgument::FlatCache(a) => {
            match (f1, f2) {
                (Function::FlatCache(b1), Function::FlatCache(b2)) => {
                    lemma_build_unique(b1.function, b2.function, *a);
                },
                _ => {},
            }
        },
        FunctionArgument::TwoDCellCache(a) => {
            match (f1, f2) {
                (Function::TwoDCellCache(b1), Function::TwoDCellCache(b2)) => {
                    lemma_build_unique(b1.function, b2.function, *a);
                },
                _ => {},
            }
        },
        FunctionArgument::AllInCellCache(a) => {
            match (f1, f2) {
                (Function::AllInCellCache(b1), Function::AllInCellCache(b2)) => {
                    lemma_build_unique(b1.function, b2.function, *a);
                },
                _ => {},
            }
        },
        FunctionArgument::OnceCache(a) => {
            match (f1, f2) {
                (Function::OnceCache(b1), Function::OnceCache(b2)) => {
                    lemma_build_unique(b1.function, b2.function, *a);
                },
                _ => {},
            }
        },
    }
}

impl FunctionArgument {
    /// An exact copy.
    pub fn duplicate(&self) -> (r: FunctionArgument)
        ensures
            r == *self,
        decreases *self,
    {
        match self {
            FunctionArgument::Number(v) => FunctionArgument::Number(*v),
            FunctionArgument::Key(k) => FunctionArgument::Key(k.duplicate()),
            FunctionArgument::Interpolated(a) => FunctionArgument::Interpolated(
                Box::new(a.duplicate()),
            ),
            FunctionArgument::Clamp(a, lo, hi) => FunctionArgument::Clamp(
                Box::new(a.duplicate()),
                *lo,
                *hi,
            ),
            FunctionArgument::OneParam(k, a) => FunctionArgument::OneParam(
                *k,
                Box::new(a.duplicate()),
            ),
            FunctionArgument::TwoParam(k, a, b) => FunctionArgument::TwoParam(
                *k,
                Box::new(a.duplicate()),
                Box::new(b.duplicate()),
            ),
            FunctionArgument::Noise(amp) => FunctionArgument::Noise(*amp),
            FunctionArgument::FlatCache(a) => FunctionArgument::FlatCache(
                Box::new(a.duplicate()),
            ),
            FunctionArgument::TwoDCellCache(a) => FunctionArgument::TwoDCellCache(
                Box::new(a.duplicate()),
            ),
            FunctionArgument::AllInCellCache(a) => FunctionArgument::AllInCellCache(
                Box::new(a.duplicate()),
            ),
            FunctionArgument::OnceCache(a) => FunctionArgument::OnceCache(
                Box::new(a.duplicate()),
            ),
        }
    }
}

/// The shared namespace of density-function definitions, resolved at
/// load time. Registered definitions are stored reference-free.
#[derive(Debug)]
pub struct DensityLoader {
    defs: Vec<(OwnedNameSpaceKey, FunctionArgument)>,
}

impl DensityLoader {
    /// The registered definitions, in registration order.
    pub closed spec fn view(&self) -> Seq<(OwnedNameSpaceKey, FunctionArgument)> {
        self.defs@
    }

    /// Every stored definition is reference-free.
    pub closed spec fn wf(&self) -> bool {
        forall|i: int| 0 <= i < self.defs@.len() ==> key_free((#[trigger] self.defs@[i]).1)
    }

    /// An empty namespace.
    pub fn new() -> (r: DensityLoader)
        ensures
            r.wf(),
            r@ == Seq::<(OwnedNameSpaceKey, FunctionArgument)>::empty(),
    {
        DensityLoader { defs: Vec::new() }
    }

    /// The stored definition under a name, if any.
    fn find_index(&self, key: &OwnedNameSpaceKey) -> (r: Option<usize>)
        ensures
            r matches Some(i) ==> i < self@.len() && find_def(self@, key.namespace@, key.key@)
                == Some(self@[i as int].1),
            r is None ==> find_def(self@, key.namespace@, key.key@) is None,
    {
        let mut i: usize = 0;
        proof {
            assert(self@.subrange(0, self@.len() as int) =~= self@);
        }
        while i < self.defs.len()
            invariant
                i <= self.defs@.len(),
                find_def(self@, key.namespace@, key.key@) == find_def(
                    self@.subrange(i as int, self@.len() as int),
                    key.namespace@,
                    key.key@,
                ),
            decreases self.defs@.len() - i,
        {
            proof {
                assert(self@.subrange(i as int, self@.len() as int)[0] == self@[i as int]);
            }
            let e = &self.defs[i];
            if e.0.same_key(key) {
                return Some(i);
            }
            proof {
                assert(self@.subrange(i as int, self@.len() as int).subrange(
                    1,
                    self@.subrange(i as int, self@.len() as int).len() as int,
                ) =~= self@.subrange(i + 1, self@.len() as int));
            }
            i = i + 1;
        }
        proof {
            assert(self@.subrange(i as int, self@.len() as int).len() == 0);
        }
        None
    }

    /// Resolves every reference of a definition against this namespace.
    /// Fails with the first reference that is not registered yet; the
    /// result is reference-free.
    pub fn expand(&self, arg: &FunctionArgument) -> (r: Result<FunctionArgument, BuildDefResult>)
        requires
            self.wf(),
        ensures
            r matches Ok(e) ==> spec_expand(*arg, self@) == Ok::<
                FunctionArgument,
                BuildError,
            >(e) && key_free(e),
            r is Err ==> spec_expand(*arg, self@) is Err,
            spec_expand(*arg, self@) matches Err(BuildError::Unresolved(a)) ==> (r matches Err(
                BuildDefResult::NotFound(b),
            ) && a == b),
            r is Err ==> spec_expand(*arg, self@) matches Err(BuildError::Unresolved(_)),
        decreases *arg,
    {
        match arg {
            FunctionArgument::Number(v) => Ok(FunctionArgument::Number(*v)),
            FunctionArgument::Key(k) => {
                match self.find_index(k) {
                    Some(i) => {
                        let d = self.defs[i].1.duplicate();
                        Ok(d)
                    },
                    None => Err(BuildDefResult::NotFound(FunctionArgument::Key(k.duplicate()))),
                }
            },
            FunctionArgument::Interpolated(a) => {
                match self.expand(a) {
                    Ok(e) => Ok(FunctionArgument::Interpolated(Box::new(e))),
                    Err(err) => Err(err),
                }
            },
            FunctionArgument::Clamp(a, lo, hi) => {
                match self.expand(a) {
                    Ok(e) => Ok(FunctionArgument::Clamp(Box::new(e), *lo, *hi)),
                    Err(err) => Err(err),
                }
            },
            FunctionArgument::OneParam(k, a) => {
                match self.expand(a) {
                    Ok(e) => Ok(FunctionArgument::OneParam(*k, Box::new(e))),
                    Err(err) => Err(err),
                }
            },
            FunctionArgument::TwoParam(k, a, b) => {
                match self.expand(a) {
                    Ok(e1) => match self.expand(b) {
                        Ok(e2) => Ok(FunctionArgument::TwoParam(*k, Box::new(e1), Box::new(e2))),
                        Err(err) => Err(err),
                    },
                    Err(err) => Err(err),
                }
            },
            FunctionArgument::Noise(amp) => Ok(FunctionArgument::Noise(*amp)),
            FunctionArgument::FlatCache(a) => {
                match self.expand(a) {
                    Ok(e) => Ok(FunctionArgument::FlatCache(Box::new(e))),
                    Err(err) => Err(err),
                }
            },
            FunctionArgument::TwoDCellCache(a) => {
                match self.expand(a) {
                    Ok(e) => Ok(FunctionArgument::TwoDCellCache(Box::new(e))),
                    Err(err) => Err(err),
                }
            },
            FunctionArgument::AllInCellCache(a) => {
                match self.expand(a) {
                    Ok(e) => Ok(FunctionArgument::AllInCellCache(Box::new(e))),
                    Err(err) => Err(err),
                }
            },
            FunctionArgument::OnceCache(a) => {
                match self.expand(a) {
                    Ok(e) => Ok(FunctionArgument::OnceCache(Box::new(e))),
                    Err(err) => Err(err),
                }
            },
        }
    }

    /// Registers a definition under a name, resolving its references
    /// right away: a reference to a definition that is not registered
    /// yet fails with `NotFound` and registers nothing.
    pub fn register(&mut self, key: OwnedNameSpaceKey, arg: &FunctionArgument) -> (r: Result<
        (),
        BuildDefResult,
    >)
        requires
            old(self).wf(),
        ensures
            final(self).wf(),
            r is Ok ==> (spec_expand(*arg, old(self)@) matches Ok(e) && final(self)@ == old(
                self,
            )@.push((key, e))),
            r is Err ==> final(self)@ == old(self)@ && spec_expand(*arg, old(self)@) is Err,
    {
        match self.expand(arg) {
            Ok(e) => {
                self.defs.push((key, e));
                Ok(())
            },
            Err(err) => Err(err),
        }
    }
}

/// Builds a typed node from a reference-free definition: parameters are
/// validated depth first, left to right, and every cache starts fresh.
fn build_free(arg: &FunctionArgument) -> (r: Result<Function, BuildDefResult>)
    ensures
        r matches Ok(f) ==> (spec_validate(*arg) is Ok && matches_free(f, *arg) && node_wf(f)),
        r is Err <==> spec_validate(*arg) is Err,
        (spec_validate(*arg) matches Err(e) ==> match e {
            BuildError::Malformed => r matches Err(BuildDefResult::InvalidFormat),
            BuildError::BadParameter => r matches Err(BuildDefResult::DescriptiveError(_)),
            BuildError::Unresolved(a) => r matches Err(BuildDefResult::NotFound(b)) && a == b,
        }),
    decreases *arg,
{
    match arg {
        FunctionArgument::Number(v) => Ok(Function::Constant(*v)),
        FunctionArgument::Key(k) => Err(
            BuildDefResult::NotFound(FunctionArgument::Key(k.duplicate())),
        ),
        FunctionArgument::Interpolated(a) => {
            match build_free(a) {
                Ok(f) => Ok(Function::Interpolated(Box::new(Interpolated { function: f }))),
                Err(err) => Err(err),
            }
        },
        FunctionArgument::Clamp(a, lo, hi) => {
            if *lo > *hi {
                return Err(BuildDefResult::InvalidFormat);
            }
            match build_free(a) {
                Ok(f) => Ok(
                    Function::Clamp(Box::new(Clamp { function: f, min: *lo, max: *hi })),
                ),
                Err(err) => Err(err),
            }
        },
        FunctionArgument::OneParam(k, a) => {
            match build_free(a) {
                Ok(f) => Ok(
                    Function::OneParam(Box::new(OneArgBuiltInFunction { kind: *k, param: f })),
                ),
                Err(err) => Err(err),
            }
        },
        FunctionArgument::TwoParam(k, a, b) => {
            match build_free(a) {
                Ok(f1) => match build_free(b) {
                    Ok(f2) => Ok(
                        Function::TwoParam(
                            Box::new(TwoParamBuiltInFunction { kind: *k, one: f1, two: f2 }),
                        ),
                    ),
                    Err(err) => Err(err),
                },
                Err(err) => Err(err),
            }
        },
        FunctionArgument::Noise(amp) => {
            if *amp < 0 || *amp >= 0x8000_0000 {
                return Err(
                    BuildDefResult::DescriptiveError("noise amplitude must lie in [0, 2^31)"),
                );
            }
            Ok(Function::Noise(NoiseFunction { amplitude: *amp }))
        },
        FunctionArgument::FlatCache(a) => {
            match build_free(a) {
                Ok(f) => Ok(Function::FlatCache(Box::new(FlatCache::new(f)))),
                Err(err) => Err(err),
            }
        },
        FunctionArgument::TwoDCellCache(a) => {
            match build_free(a) {
                Ok(f) => Ok(Function::TwoDCellCache(Box::new(TwoDCache::new(f)))),
                Err(err) => Err(err),
            }
        },
        FunctionArgument::AllInCellCache(a) => {
            match build_free(a) {
                Ok(f) => Ok(Function::AllInCellCache(Box::new(AllInCellCache::new(f)))),
                Err(err) => Err(err),
            }
        },
        FunctionArgument::OnceCache(a) => {
            match build_free(a) {
                Ok(f) => Ok(Function::OnceCache(Box::new(OnceCache::new(f)))),
                Err(err) => Err(err),
            }
        },
    }
}

/// The combined build outcome of a definition against a namespace:
/// references are resolved first, then parameters validated.
pub open spec fn spec_build(
    arg: FunctionArgument,
    defs: Seq<(OwnedNameSpaceKey, FunctionArgument)>,
) -> Result<FunctionArgument, BuildError> {
    match spec_expand(arg, defs) {
        Ok(e) => match spec_validate(e) {
            Ok(()) => Ok(e),
            Err(err) => Err(err),
        },
        Err(err) => Err(err),
    }
}

/// Builds a typed density function from an untyped definition and the
/// loader's namespace. Succeeds exactly when every reference resolves
/// and every parameter is in range; the result realizes the resolved
/// definition with fresh caches, so two builds of one definition always
/// describe the same function.
pub fn build_function(arg: &FunctionArgument, loader: &DensityLoader) -> (r: Result<
    Function,
    BuildDefResult,
>)
    requires
        loader.wf(),
    ensures
        r is Ok <==> spec_build(*arg, loader@) is Ok,
        r matches Ok(f) ==> (spec_build(*arg, loader@) matches Ok(e) && matches_free(f, e)
            && node_wf(f)),
        (spec_build(*arg, loader@) matches Err(e) ==> match e {
            BuildError::Malformed => r matches Err(BuildDefResult::InvalidFormat),
            BuildError::BadParameter => r matches Err(BuildDefResult::DescriptiveError(_)),
            BuildError::Unresolved(a) => r matches Err(BuildDefResult::NotFound(b)) && a == b,
        }),
{
    match loader.expand(arg) {
        Ok(e) => build_free(&e),
        Err(err) => Err(err),
    }
}

} // verus!
