//! Launch-plan synthesis: harvesting the launch scripts' output into a
//! plan, substituting the caller's run arguments, assembling the JVM
//! argument vector, and selecting a JVM by version from `release`
//! files.

use vstd::prelude::*;
use crate::error::PlanError;
use crate::template::spec_substitute;
use crate::template::substitute;
use crate::template::find_byte;
use crate::template::lemma_find_byte_bounds;
use crate::install::strlist_view;
use crate::util::push_bytes;
use crate::util::clone_bytes;
use crate::json::is_digit;
use crate::json::digit_run;
use crate::json::lemma_digit_run_bounds;

verus! {

/// The caller-supplied values substituted into the launch arguments.
#[derive(Debug, PartialEq)]
pub struct RunArguments {
    pub token: Vec<u8>,
    pub uuid: Vec<u8>,
    pub username: Vec<u8>,
}

/// The substitution map derived from the run arguments.
pub open spec fn spec_run_params(token: Seq<u8>, uuid: Seq<u8>, username: Seq<u8>) -> Seq<
    (Seq<u8>, Seq<u8>),
> {
    seq![
        (lit_param_access_token(), token),
        (lit_param_uuid(), uuid),
        (lit_param_username(), username),
    ]
}

/// Values read back from the launch scripts' output globals. An empty
/// `main_class` and a `java_version` of `-1` mean "unset", as the
/// scripts see them.
#[derive(Debug, PartialEq)]
pub struct ScriptOutputs {
    pub main_class: Vec<u8>,
    pub classpath: Vec<Vec<u8>>,
    pub java_arguments: Vec<Vec<u8>>,
    pub program_arguments: Vec<Vec<u8>>,
    pub policies: Vec<Vec<u8>>,
    pub java_version: i64,
}

/// The materialised launch plan.
#[derive(Debug, PartialEq)]
pub struct LaunchPlan {
    pub main_class: Vec<u8>,
    pub classpath: Vec<Vec<u8>>,
    pub java_arguments: Vec<Vec<u8>>,
    pub program_arguments: Vec<Vec<u8>>,
    pub policy_text: Option<Vec<u8>>,
    pub java_version: Option<i64>,
}

/// All policy bodies joined into the text of `policy.policy`.
pub open spec fn spec_concat_all(xs: Seq<Seq<u8>>) -> Seq<u8>
    decreases xs.len(),
{
    if xs.len() == 0 {
        Seq::empty()
    } else {
        xs[0] + spec_concat_all(xs.drop_first())
    }
}

/// Substitution applied to each element of a list.
pub open spec fn spec_sub_all(xs: Seq<Seq<u8>>, m: Seq<(Seq<u8>, Seq<u8>)>) -> Seq<Seq<u8>> {
    Seq::new(xs.len(), |k: int| spec_substitute(xs[k], m))
}

/// The text `-Djava.security.manager`.
pub open spec fn lit_flag_security_manager() -> Seq<u8> {
    seq![0x2du8, 0x44u8, 0x6au8, 0x61u8, 0x76u8, 0x61u8, 0x2eu8, 0x73u8, 0x65u8, 0x63u8, 0x75u8, 0x72u8, 0x69u8, 0x74u8, 0x79u8, 0x2eu8, 0x6du8, 0x61u8, 0x6eu8, 0x61u8, 0x67u8, 0x65u8, 0x72u8]
}

/// The same text as a byte vector.
pub fn flag_security_manager_bytes() -> (r: Vec<u8>)
    ensures
        r@ == lit_flag_security_manager(),
{
    let r: Vec<u8> = vec![0x2d, 0x44, 0x6a, 0x61, 0x76, 0x61, 0x2e, 0x73, 0x65, 0x63, 0x75, 0x72, 0x69, 0x74, 0x79, 0x2e, 0x6d, 0x61, 0x6e, 0x61, 0x67, 0x65, 0x72];
    proof {
        assert(r@ =~= lit_flag_security_manager());
    }
    r
}

/// The text `-Djava.security.policy==policy.policy`.
pub open spec fn lit_flag_security_policy() -> Seq<u8> {
    seq![0x2du8, 0x44u8, 0x6au8, 0x61u8, 0x76u8, 0x61u8, 0x2eu8, 0x73u8, 0x65u8, 0x63u8, 0x75u8, 0x72u8, 0x69u8, 0x74u8, 0x79u8, 0x2eu8, 0x70u8, 0x6fu8, 0x6cu8, 0x69u8, 0x63u8, 0x79u8, 0x3du8, 0x3du8, 0x70u8, 0x6fu8, 0x6cu8, 0x69u8, 0x63u8, 0x79u8, 0x2eu8, 0x70u8, 0x6fu8, 0x6cu8, 0x69u8, 0x63u8, 0x79u8]
}

/// The same text as a byte vector.
pub fn flag_security_policy_bytes() -> (r: Vec<u8>)
    ensures
        r@ == lit_flag_security_policy(),
{
    let r: Vec<u8> = vec![0x2d, 0x44, 0x6a, 0x61, 0x76, 0x61, 0x2e, 0x73, 0x65, 0x63, 0x75, 0x72, 0x69, 0x74, 0x79, 0x2e, 0x70, 0x6f, 0x6c, 0x69, 0x63, 0x79, 0x3d, 0x3d, 0x70, 0x6f, 0x6c, 0x69, 0x63, 0x79, 0x2e, 0x70, 0x6f, 0x6c, 0x69, 0x63, 0x79];
    proof {
        assert(r@ =~= lit_flag_security_policy());
    }
    r
}

/// The text `-DLWJGL_DISABLE_XRANDR=true`.
pub open spec fn lit_flag_disable_xrandr() -> Seq<u8> {
    seq![0x2du8, 0x44u8, 0x4cu8, 0x57u8, 0x4au8, 0x47u8, 0x4cu8, 0x5fu8, 0x44u8, 0x49u8, 0x53u8, 0x41u8, 0x42u8, 0x4cu8, 0x45u8, 0x5fu8, 0x58u8, 0x52u8, 0x41u8, 0x4eu8, 0x44u8, 0x52u8, 0x3du8, 0x74u8, 0x72u8, 0x75u8, 0x65u8]
}

/// The same text as a byte vector.
pub fn flag_disable_xrandr_bytes() -> (r: Vec<u8>)
    ensures
        r@ == lit_flag_disable_xrandr(),
{
    let r: Vec<u8> = vec![0x2d, 0x44, 0x4c, 0x57, 0x4a, 0x47, 0x4c, 0x5f, 0x44, 0x49, 0x53, 0x41, 0x42, 0x4c, 0x45, 0x5f, 0x58, 0x52, 0x41, 0x4e, 0x44, 0x52, 0x3d, 0x74, 0x72, 0x75, 0x65];
    proof {
        assert(r@ =~= lit_flag_disable_xrandr());
    }
    r
}

/// The text `-Dsecurity_location=security.security`.
pub open spec fn lit_flag_security_location() -> Seq<u8> {
    seq![0x2du8, 0x44u8, 0x73u8, 0x65u8, 0x63u8, 0x75u8, 0x72u8, 0x69u8, 0x74u8, 0x79u8, 0x5fu8, 0x6cu8, 0x6fu8, 0x63u8, 0x61u8, 0x74u8, 0x69u8, 0x6fu8, 0x6eu8, 0x3du8, 0x73u8, 0x65u8, 0x63u8, 0x75u8, 0x72u8, 0x69u8, 0x74u8, 0x79u8, 0x2eu8, 0x73u8, 0x65u8, 0x63u8, 0x75u8, 0x72u8, 0x69u8, 0x74u8, 0x79u8]
}

/// The same text as a byte vector.
pub fn flag_security_location_bytes() -> (r: Vec<u8>)
    ensures
        r@ == lit_flag_security_location(),
{
    let r: Vec<u8> = vec![0x2d, 0x44, 0x73, 0x65, 0x63, 0x75, 0x72, 0x69, 0x74, 0x79, 0x5f, 0x6c, 0x6f, 0x63, 0x61, 0x74, 0x69, 0x6f, 0x6e, 0x3d, 0x73, 0x65, 0x63, 0x75, 0x72, 0x69, 0x74, 0x79, 0x2e, 0x73, 0x65, 0x63, 0x75, 0x72, 0x69, 0x74, 0x79];
    proof {
        assert(r@ =~= lit_flag_security_location());
    }
    r
}

/// The text `-cp`.
pub open spec fn lit_flag_cp() -> Seq<u8> {
    seq![0x2du8, 0x63u8, 0x70u8]
}

/// The same text as a byte vector.
pub fn flag_cp_bytes() -> (r: Vec<u8>)
    ensures
        r@ == lit_flag_cp(),
{
    let r: Vec<u8> = vec![0x2d, 0x63, 0x70];
    proof {
        assert(r@ =~= lit_flag_cp());
    }
    r
}

/// The text `access_token`.
pub open spec fn lit_param_access_token() -> Seq<u8> {
    seq![0x61u8, 0x63u8, 0x63u8, 0x65u8, 0x73u8, 0x73u8, 0x5fu8, 0x74u8, 0x6fu8, 0x6bu8, 0x65u8, 0x6eu8]
}

/// The same text as a byte vector.
pub fn param_access_token_bytes() -> (r: Vec<u8>)
    ensures
        r@ == lit_param_access_token(),
{
    let r: Vec<u8> = vec![0x61, 0x63, 0x63, 0x65, 0x73, 0x73, 0x5f, 0x74, 0x6f, 0x6b, 0x65, 0x6e];
    proof {
        assert(r@ =~= lit_param_access_token());
    }
    r
}

/// The text `uuid`.
pub open spec fn lit_param_uuid() -> Seq<u8> {
    seq![0x75u8, 0x75u8, 0x69u8, 0x64u8]
}

/// The same text as a byte vector.
pub fn param_uuid_bytes() -> (r: Vec<u8>)
    ensures
        r@ == lit_param_uuid(),
{
    let r: Vec<u8> = vec![0x75, 0x75, 0x69, 0x64];
    proof {
        assert(r@ =~= lit_param_uuid());
    }
    r
}

/// The text `username`.
pub open spec fn lit_param_username() -> Seq<u8> {
    seq![0x75u8, 0x73u8, 0x65u8, 0x72u8, 0x6eu8, 0x61u8, 0x6du8, 0x65u8]
}

/// The same text as a byte vector.
pub fn param_username_bytes() -> (r: Vec<u8>)
    ensures
        r@ == lit_param_username(),
{
    let r: Vec<u8> = vec![0x75, 0x73, 0x65, 0x72, 0x6e, 0x61, 0x6d, 0x65];
    proof {
        assert(r@ =~= lit_param_username());
    }
    r
}

/// The text `JAVA_VERSION=`.
pub open spec fn lit_java_version_prefix() -> Seq<u8> {
    seq![0x4au8, 0x41u8, 0x56u8, 0x41u8, 0x5fu8, 0x56u8, 0x45u8, 0x52u8, 0x53u8, 0x49u8, 0x4fu8, 0x4eu8, 0x3du8]
}

/// The same text as a byte vector.
pub fn java_version_prefix_bytes() -> (r: Vec<u8>)
    ensures
        r@ == lit_java_version_prefix(),
{
    let r: Vec<u8> = vec![0x4a, 0x41, 0x56, 0x41, 0x5f, 0x56, 0x45, 0x52, 0x53, 0x49, 0x4f, 0x4e, 0x3d];
    proof {
        assert(r@ =~= lit_java_version_prefix());
    }
    r
}

/// The text `/bin/java`.
pub open spec fn lit_bin_java_suffix() -> Seq<u8> {
    seq![0x2fu8, 0x62u8, 0x69u8, 0x6eu8, 0x2fu8, 0x6au8, 0x61u8, 0x76u8, 0x61u8]
}

/// The same text as a byte vector.
pub fn bin_java_suffix_bytes() -> (r: Vec<u8>)
    ensures
        r@ == lit_bin_java_suffix(),
{
    let r: Vec<u8> = vec![0x2f, 0x62, 0x69, 0x6e, 0x2f, 0x6a, 0x61, 0x76, 0x61];
    proof {
        assert(r@ =~= lit_bin_java_suffix());
    }
    r
}

/// The text `java`.
pub open spec fn lit_default_java_cmd() -> Seq<u8> {
    seq![0x6au8, 0x61u8, 0x76u8, 0x61u8]
}

/// The same text as a byte vector.
pub fn default_java_cmd_bytes() -> (r: Vec<u8>)
    ensures
        r@ == lit_default_java_cmd(),
{
    let r: Vec<u8> = vec![0x6a, 0x61, 0x76, 0x61];
    proof {
        assert(r@ =~= lit_default_java_cmd());
    }
    r
}

/// The substitution map for a launch: `access_token`, `uuid`,
/// `username`.
pub fn run_params(arguments: &RunArguments) -> (r: Vec<(Vec<u8>, Vec<u8>)>)
    ensures
        r.deep_view() == spec_run_params(arguments.token@, arguments.uuid@, arguments.username@),
{
    let mut out: Vec<(Vec<u8>, Vec<u8>)> = Vec::new();
    out.push((param_access_token_bytes(), clone_bytes(&arguments.token)));
    out.push((param_uuid_bytes(), clone_bytes(&arguments.uuid)));
    out.push((param_username_bytes(), clone_bytes(&arguments.username)));
    proof {
        assert forall|k: int| 0 <= k < 3 implies out.deep_view()[k] == spec_run_params(
            arguments.token@,
            arguments.uuid@,
            arguments.username@,
        )[k] by {
            assert(out@[k].0.deep_view() =~= out@[k].0@);
            assert(out@[k].1.deep_view() =~= out@[k].1@);
        }
        assert(out.deep_view() =~= spec_run_params(
            arguments.token@,
            arguments.uuid@,
            arguments.username@,
        ));
    }
    out
}

/// Concatenates policy bodies into one text.
fn concat_all(xs: &Vec<Vec<u8>>) -> (r: Vec<u8>)
    ensures
        r@ == spec_concat_all(strlist_view(xs@)),
{
    let ghost xv = strlist_view(xs@);
    let mut out: Vec<u8> = Vec::new();
    let mut i: usize = 0;
    proof {
        assert(xv.skip(0) =~= xv);
    }
    while i < xs.len()
        invariant
            i <= xs@.len(),
            xv == strlist_view(xs@),
            spec_concat_all(xv) == out@ + spec_concat_all(xv.skip(i as int)),
        decreases xs@.len() - i,
    {
        let ghost oldout = out@;
        proof {
            assert(xv.skip(i as int)[0] == xv[i as int]);
            assert(xv.skip(i as int).drop_first() =~= xv.skip(i + 1));
        }
        push_bytes(&mut out, &xs[i]);
        proof {
            assert(oldout + (xv[i as int] + spec_concat_all(xv.skip(i + 1))) =~= (oldout
                + xv[i as int]) + spec_concat_all(xv.skip(i + 1)));
        }
        i += 1;
    }
    proof {
        assert(spec_concat_all(xv.skip(i as int)) =~= Seq::<u8>::empty());
        assert(out@ + Seq::<u8>::empty() =~= out@);
    }
    out
}

/// Substitutes the run parameters into every element of a list.
fn sub_all(xs: &Vec<Vec<u8>>, m: &Vec<(Vec<u8>, Vec<u8>)>) -> (r: Vec<Vec<u8>>)
    ensures
        strlist_view(r@) == spec_sub_all(strlist_view(xs@), m.deep_view()),
{
    let mut out: Vec<Vec<u8>> = Vec::new();
    let mut i: usize = 0;
    while i < xs.len()
        invariant
            i <= xs@.len(),
            out@.len() == i,
            forall|k: int|
                0 <= k < i ==> (#[trigger] out@[k])@ == spec_substitute(xs@[k]@, m.deep_view()),
        decreases xs@.len() - i,
    {
        let s = substitute(&xs[i], m);
        out.push(s);
        i += 1;
    }
    proof {
        assert(strlist_view(out@) =~= spec_sub_all(strlist_view(xs@), m.deep_view()));
    }
    out
}

/// Builds the launch plan from the scripts' output. An empty main class
/// is the one fatal condition; the run arguments are substituted into
/// every list entry — classpath, java arguments, program arguments and
/// policy bodies — and non-empty policy bodies are concatenated into
/// the policy file text.
pub fn build_launch_plan(outputs: ScriptOutputs, arguments: &RunArguments) -> (r: Result<
    LaunchPlan,
    PlanError,
>)
    ensures
        outputs.main_class@.len() == 0 <==> r == Err::<LaunchPlan, PlanError>(
            PlanError::MissingMainClass,
        ),
        match r {
            Ok(plan) => {
                &&& plan.main_class@ == outputs.main_class@
                &&& strlist_view(plan.classpath@) == spec_sub_all(
                    strlist_view(outputs.classpath@),
                    spec_run_params(arguments.token@, arguments.uuid@, arguments.username@),
                )
                &&& strlist_view(plan.java_arguments@) == spec_sub_all(
                    strlist_view(outputs.java_arguments@),
                    spec_run_params(arguments.token@, arguments.uuid@, arguments.username@),
                )
                &&& strlist_view(plan.program_arguments@) == spec_sub_all(
                    strlist_view(outputs.program_arguments@),
                    spec_run_params(arguments.token@, arguments.uuid@, arguments.username@),
                )
                &&& (outputs.policies@.len() == 0 ==> plan.policy_text is None)
                &&& (outputs.policies@.len() > 0 ==> plan.policy_text is Some
                    && plan.policy_text->Some_0@ == spec_concat_all(
                    spec_sub_all(
                        strlist_view(outputs.policies@),
                        spec_run_params(arguments.token@, arguments.uuid@, arguments.username@),
                    ),
                ))
                &&& (outputs.java_version == -1 <==> plan.java_version is None)
                &&& (outputs.java_version != -1 ==> plan.java_version == Some(
                    outputs.java_version,
                ))
            },
            Err(e) => e == PlanError::MissingMainClass,
        },
{
    if outputs.main_class.len() == 0 {
        return Err(PlanError::MissingMainClass);
    }
    let params = run_params(arguments);
    let classpath = sub_all(&outputs.classpath, &params);
    let java_arguments = sub_all(&outputs.java_arguments, &params);
    let program_arguments = sub_all(&outputs.program_arguments, &params);
    let policy_text = if outputs.policies.len() > 0 {
        let bodies = sub_all(&outputs.policies, &params);
        Some(concat_all(&bodies))
    } else {
        None
    };
    let java_version = if outputs.java_version == -1 {
        None
    } else {
        Some(outputs.java_version)
    };
    Ok(
        LaunchPlan {
            main_class: outputs.main_class,
            classpath,
            java_arguments,
            program_arguments,
            policy_text,
            java_version,
        },
    )
}

/// The entries joined with the separator; no separator around a single
/// entry, none for an empty list.
pub open spec fn spec_joined(cp: Seq<Seq<u8>>, sep: u8) -> Seq<u8>
    decreases cp.len(),
{
    if cp.len() == 0 {
        Seq::empty()
    } else if cp.len() == 1 {
        cp[0]
    } else {
        spec_joined(cp.drop_last(), sep) + seq![sep] + cp.last()
    }
}

/// The classpath argument: the working directory, the separator, then
/// the joined entries — so an empty classpath still ends in the
/// separator.
pub open spec fn spec_cp_arg(cp: Seq<Seq<u8>>, sep: u8) -> Seq<u8> {
    seq![0x2eu8, sep] + spec_joined(cp, sep)
}

/// The argument vector after the java arguments: the security flags
/// when a policy file is written, then `-cp`, the joined classpath and
/// the main class, then the program arguments.
pub open spec fn spec_argv(
    java_arguments: Seq<Seq<u8>>,
    has_policy: bool,
    cp: Seq<Seq<u8>>,
    sep: u8,
    main_class: Seq<u8>,
    program_arguments: Seq<Seq<u8>>,
) -> Seq<Seq<u8>> {
    java_arguments + (if has_policy {
        seq![
            lit_flag_security_manager(),
            lit_flag_security_policy(),
            lit_flag_disable_xrandr(),
            lit_flag_security_location(),
        ]
    } else {
        Seq::empty()
    }) + seq![lit_flag_cp(), spec_cp_arg(cp, sep), main_class] + program_arguments
}

/// Joins the classpath behind the working directory.
fn cp_arg(cp: &Vec<Vec<u8>>, sep: u8) -> (r: Vec<u8>)
    ensures
        r@ == spec_cp_arg(strlist_view(cp@), sep),
{
    let ghost cv = strlist_view(cp@);
    let mut out: Vec<u8> = Vec::new();
    out.push(0x2e);
    out.push(sep);
    let mut i: usize = 0;
    proof {
        assert(cv.take(0) =~= Seq::<Seq<u8>>::empty());
        assert(out@ =~= seq![0x2eu8, sep] + spec_joined(cv.take(0), sep));
    }
    while i < cp.len()
        invariant
            i <= cp@.len(),
            cv == strlist_view(cp@),
            out@ == seq![0x2eu8, sep] + spec_joined(cv.take(i as int), sep),
        decreases cp@.len() - i,
    {
        if i > 0 {
            out.push(sep);
        }
        push_bytes(&mut out, &cp[i]);
        proof {
            assert(cv.take(i + 1).drop_last() =~= cv.take(i as int));
            assert(cv.take(i + 1).last() == cv[i as int]);
            if i == 0 {
                assert(cv.take(1)[0] == cv[0]);
            }
            assert(out@ =~= seq![0x2eu8, sep] + spec_joined(cv.take(i + 1), sep));
        }
        i += 1;
    }
    proof {
        assert(cv.take(cp@.len() as int) =~= cv);
    }
    out
}

/// Assembles the argument vector for the JVM invocation.
pub fn build_argv(plan: &LaunchPlan, windows: bool) -> (r: Vec<Vec<u8>>)
    ensures
        strlist_view(r@) == spec_argv(
            strlist_view(plan.java_arguments@),
            plan.policy_text is Some,
            strlist_view(plan.classpath@),
            if windows {
                0x3bu8
            } else {
                0x3au8
            },
            plan.main_class@,
            strlist_view(plan.program_arguments@),
        ),
{
    let sep: u8 = if windows {
        0x3b
    } else {
        0x3a
    };
    let mut out: Vec<Vec<u8>> = Vec::new();
    let mut i: usize = 0;
    while i < plan.java_arguments.len()
        invariant
            i <= plan.java_arguments@.len(),
            out@.len() == i,
            forall|k: int| 0 <= k < i ==> (#[trigger] out@[k])@ == plan.java_arguments@[k]@,
        decreases plan.java_arguments@.len() - i,
    {
        out.push(clone_bytes(&plan.java_arguments[i]));
        i += 1;
    }
    proof {
        assert(strlist_view(out@) =~= strlist_view(plan.java_arguments@));
    }
    let ghost after_java = strlist_view(out@);
    let ghost flags = if plan.policy_text is Some {
        seq![
            lit_flag_security_manager(),
            lit_flag_security_policy(),
            lit_flag_disable_xrandr(),
            lit_flag_security_location(),
        ]
    } else {
        Seq::<Seq<u8>>::empty()
    };
    if plan.policy_text.is_some() {
        out.push(flag_security_manager_bytes());
        out.push(flag_security_policy_bytes());
        out.push(flag_disable_xrandr_bytes());
        out.push(flag_security_location_bytes());
    }
    proof {
        assert(strlist_view(out@) =~= after_java + flags);
    }
    let ghost after_flags = strlist_view(out@);
    out.push(flag_cp_bytes());
    out.push(cp_arg(&plan.classpath, sep));
    out.push(clone_bytes(&plan.main_class));
    proof {
        assert(strlist_view(out@) =~= after_flags + seq![
            lit_flag_cp(),
            spec_cp_arg(strlist_view(plan.classpath@), sep),
            plan.main_class@,
        ]);
    }
    let ghost before_prog = strlist_view(out@);
    let ghost before_len = out@.len() as int;
    let mut j: usize = 0;
    while j < plan.program_arguments.len()
        invariant
            j <= plan.program_arguments@.len(),
            out@.len() == before_len + j,
            before_len == before_prog.len(),
            forall|k: int| 0 <= k < before_len ==> (#[trigger] out@[k])@ == before_prog[k],
            forall|k: int|
                0 <= k < j ==> (#[trigger] out@[before_len + k])@ == plan.program_arguments@[k]@,
        decreases plan.program_arguments@.len() - j,
    {
        out.push(clone_bytes(&plan.program_arguments[j]));
        j += 1;
    }
    proof {
        assert forall|q: int| 0 <= q < out@.len() implies strlist_view(out@)[q] == (before_prog
            + strlist_view(plan.program_arguments@))[q] by {
            if q >= before_len {
                assert(out@[before_len + (q - before_len)]@ == plan.program_arguments@[q - before_len]@);
            }
        }
        assert(strlist_view(out@) =~= before_prog + strlist_view(plan.program_arguments@));
        assert(strlist_view(out@) =~= spec_argv(
            strlist_view(plan.java_arguments@),
            plan.policy_text is Some,
            strlist_view(plan.classpath@),
            sep,
            plan.main_class@,
            strlist_view(plan.program_arguments@),
        ));
    }
    out
}

// ---------------------------------------------------------------------
// Selecting a JVM by version
// ---------------------------------------------------------------------

/// `prefix` begins `s`.
pub open spec fn spec_starts_with(s: Seq<u8>, prefix: Seq<u8>) -> bool {
    s.len() >= prefix.len() && s.take(prefix.len() as int) == prefix
}

/// Index of the last occurrence of `b`, if any.
pub open spec fn find_last_byte(s: Seq<u8>, b: u8) -> Option<int>
    decreases s.len(),
{
    if s.len() == 0 {
        None
    } else if s.last() == b {
        Some(s.len() - 1)
    } else {
        find_last_byte(s.drop_last(), b)
    }
}

/// The numeric value of an all-digit component, as a number token.
pub open spec fn spec_version_value(ver: Seq<u8>) -> Option<u64> {
    if ver.len() > 0 && digit_run(ver) == ver.len() {
        match crate::json::sp_number(ver) {
            Some((crate::json::JVal::Int(n), cnt)) => if cnt == ver.len() {
                Some(n as u64)
            } else {
                None
            },
            _ => None,
        }
    } else {
        None
    }
}

/// The major version quoted in one `JAVA_VERSION="..."` line: the text
/// between the first and the last quote, split at dots; a leading `1`
/// component defers to the next one (the legacy `1.x` scheme).
pub open spec fn spec_version_from_line(line: Seq<u8>) -> Option<u64> {
    match find_byte(line, 0x22) {
        None => None,
        Some(a) => match find_last_byte(line, 0x22) {
            None => None,
            Some(b) => if !(0 <= a && a + 1 <= b <= line.len()) {
                None
            } else {
                let ver = line.subrange(a + 1, b);
                let comps = crate::util::spec_split(ver, 0x2e);
                if comps[0] == seq![0x31u8] && comps.len() >= 2 {
                    spec_version_value(comps[1])
                } else {
                    spec_version_value(comps[0])
                }
            },
        },
    }
}

/// The version announced by a `release` file: taken from the first line
/// that starts with `JAVA_VERSION=`.
pub open spec fn spec_release_version(lines: Seq<Seq<u8>>) -> Option<u64>
    decreases lines.len(),
{
    if lines.len() == 0 {
        None
    } else if spec_starts_with(lines[0], lit_java_version_prefix()) {
        spec_version_from_line(lines[0])
    } else {
        spec_release_version(lines.drop_first())
    }
}

/// Whether `prefix` begins `s`.
pub fn starts_with(s: &Vec<u8>, prefix: &Vec<u8>) -> (r: bool)
    ensures
        r == spec_starts_with(s@, prefix@),
{
    if s.len() < prefix.len() {
        return false;
    }
    let mut i: usize = 0;
    while i < prefix.len()
        invariant
            i <= prefix@.len() <= s@.len(),
            forall|k: int| 0 <= k < i ==> s@[k] == prefix@[k],
        decreases prefix@.len() - i,
    {
        if s[i] != prefix[i] {
            proof {
                assert(s@.take(prefix@.len() as int)[i as int] != prefix@[i as int]);
            }
            return false;
        }
        i += 1;
    }
    proof {
        assert(s@.take(prefix@.len() as int) =~= prefix@);
    }
    true
}

/// Absolute index of the last `b` in `s`, if any.
fn find_last_byte_exec(s: &Vec<u8>, n: usize, b: u8) -> (r: Option<usize>)
    requires
        n <= s@.len(),
    ensures
        match r {
            Some(j) => j < n && find_last_byte(s@.take(n as int), b) == Some(j as int),
            None => find_last_byte(s@.take(n as int), b) is None,
        },
    decreases n,
{
    if n == 0 {
        return None;
    }
    let ghost pre = s@.take(n as int);
    proof {
        assert(pre.last() == s@[n - 1]);
        assert(pre.drop_last() =~= s@.take(n - 1));
    }
    if s[n - 1] == b {
        Some(n - 1)
    } else {
        find_last_byte_exec(s, n - 1, b)
    }
}

/// Reads the major version out of one `JAVA_VERSION="..."` line.
fn version_from_line(line: &Vec<u8>) -> (r: Option<u64>)
    ensures
        r == spec_version_from_line(line@),
{
    let a = match crate::template::find_byte_at(line, 0, 0x22) {
        Some(a) => a,
        None => {
            proof {
                assert(line@.skip(0) =~= line@);
            }
            return None;
        },
    };
    proof {
        assert(line@.skip(0) =~= line@);
    }
    let b = match find_last_byte_exec(line, line.len(), 0x22) {
        Some(b) => b,
        None => {
            proof {
                assert(line@.take(line@.len() as int) =~= line@);
            }
            return None;
        },
    };
    proof {
        assert(line@.take(line@.len() as int) =~= line@);
    }
    if a + 1 > b {
        return None;
    }
    let ver = crate::template::copy_range(line, a + 1, b);
    let comps = crate::util::split_bytes(&ver, 0x2e);
    proof {
        assert(crate::util::spec_split(ver@, 0x2e).len() >= 1) by {
            lemma_split_nonempty(ver@, 0x2e);
        }
        assert(comps@[0]@ == crate::util::spec_split(ver@, 0x2e)[0]);
    }
    let one: Vec<u8> = vec![0x31];
    proof {
        assert(one@ =~= seq![0x31u8]);
    }
    let chosen: &Vec<u8> = if crate::util::bytes_eq(&comps[0], &one) && comps.len() >= 2 {
        proof {
            assert(comps@[1]@ == crate::util::spec_split(ver@, 0x2e)[1]);
        }
        &comps[1]
    } else {
        &comps[0]
    };
    version_value(chosen)
}

proof fn lemma_split_nonempty(s: Seq<u8>, sep: u8)
    ensures
        crate::util::spec_split(s, sep).len() >= 1,
{
    crate::template::lemma_find_byte_bounds(s, sep);
}

/// Parses an all-digit component as a version number.
fn version_value(ver: &Vec<u8>) -> (r: Option<u64>)
    ensures
        r == spec_version_value(ver@),
{
    if ver.len() == 0 {
        return None;
    }
    let mut i: usize = 0;
    while i < ver.len()
        invariant
            i <= ver@.len(),
            forall|k: int| 0 <= k < i ==> is_digit(#[trigger] ver@[k]),
        decreases ver@.len() - i,
    {
        let c = ver[i];
        if !(0x30 <= c && c <= 0x39) {
            proof {
                lemma_digit_run_bounds(ver@);
                if digit_run(ver@) == ver@.len() {
                    lemma_digit_run_all(ver@);
                    assert(is_digit(ver@[i as int]));
                }
            }
            return None;
        }
        i += 1;
    }
    proof {
        lemma_all_digit_run(ver@);
    }
    match crate::json::parse_number(ver, 0) {
        Some((crate::json::JsonValue::Int(n), j)) => {
            proof {
                assert(ver@.skip(0) =~= ver@);
            }
            if j == ver.len() {
                Some(#[verifier::truncate] (n as u64))
            } else {
                None
            }
        },
        Some((other, j)) => {
            proof {
                assert(ver@.skip(0) =~= ver@);
                assert(!(other@ is Int));
            }
            None
        },
        None => {
            proof {
                assert(ver@.skip(0) =~= ver@);
            }
            None
        },
    }
}

proof fn lemma_digit_run_all(s: Seq<u8>)
    requires
        digit_run(s) == s.len(),
    ensures
        forall|k: int| 0 <= k < s.len() ==> is_digit(#[trigger] s[k]),
    decreases s.len(),
{
    if s.len() > 0 {
        lemma_digit_run_bounds(s.skip(1));
        lemma_digit_run_all(s.skip(1));
        assert forall|k: int| 0 <= k < s.len() implies is_digit(#[trigger] s[k]) by {
            if k > 0 {
                assert(s.skip(1)[k - 1] == s[k]);
            }
        }
    }
}

proof fn lemma_all_digit_run(s: Seq<u8>)
    requires
        forall|k: int| 0 <= k < s.len() ==> is_digit(#[trigger] s[k]),
    ensures
        digit_run(s) == s.len(),
    decreases s.len(),
{
    if s.len() > 0 {
        assert(forall|k: int| 0 <= k < s.skip(1).len() ==> is_digit(#[trigger] s.skip(1)[k]));
        lemma_all_digit_run(s.skip(1));
    }
}

/// Reads the announced version out of a whole `release` file.
pub fn parse_release_java_version(contents: &Vec<u8>) -> (r: Option<u64>)
    ensures
        r == spec_release_version(crate::util::spec_split(contents@, 0x0a)),
{
    let lines = crate::util::split_bytes(contents, 0x0a);
    let ghost lv = crate::util::spec_split(contents@, 0x0a);
    proof {
        assert(lv =~= crate::util::spec_split(contents@, 0x0a));
    }
    let prefix = java_version_prefix_bytes();
    let mut i: usize = 0;
    proof {
        assert(lv.skip(0) =~= lv);
    }
    while i < lines.len()
        invariant
            i <= lines@.len(),
            lv == crate::util::spec_split(contents@, 0x0a),
            lines@.len() == lv.len(),
            forall|k: int| 0 <= k < lv.len() ==> (#[trigger] lines@[k])@ == lv[k],
            prefix@ == lit_java_version_prefix(),
            spec_release_version(lv) == spec_release_version(lv.skip(i as int)),
        decreases lines@.len() - i,
    {
        proof {
            assert(lv.skip(i as int)[0] == lv[i as int]);
            assert(lv.skip(i as int).drop_first() =~= lv.skip(i + 1));
        }
        if starts_with(&lines[i], &prefix) {
            proof {
                assert(spec_starts_with(lv[i as int], lit_java_version_prefix()));
                assert(spec_release_version(lv.skip(i as int)) == spec_version_from_line(
                    lv[i as int],
                ));
            }
            return version_from_line(&lines[i]);
        }
        i += 1;
    }
    proof {
        assert(lv.skip(i as int).len() == 0);
    }
    None
}

/// Picks the first JDK directory whose `release` file announces the
/// wanted version, yielding its `bin/java` path.
pub open spec fn spec_select_java(
    dirs: Seq<(Seq<u8>, Seq<u8>)>,
    wanted: u64,
) -> Option<Seq<u8>>
    decreases dirs.len(),
{
    if dirs.len() == 0 {
        None
    } else if spec_release_version(
        crate::util::spec_split(dirs[0].1, 0x0a),
    ) == Some(wanted) {
        Some(dirs[0].0 + lit_bin_java_suffix())
    } else {
        spec_select_java(dirs.drop_first(), wanted)
    }
}

/// Scans `(directory, release contents)` pairs for the wanted JVM.
pub fn select_java_executable(dirs: &Vec<(Vec<u8>, Vec<u8>)>, wanted: u64) -> (r: Option<Vec<u8>>)
    ensures
        match r {
            Some(p) => spec_select_java(dirs.deep_view(), wanted) == Some(p@),
            None => spec_select_java(dirs.deep_view(), wanted) is None,
        },
{
    let ghost dv = dirs.deep_view();
    proof {
        assert(dv.len() == dirs@.len());
    }
    let mut i: usize = 0;
    proof {
        assert(dv.skip(0) =~= dv);
    }
    while i < dirs.len()
        invariant
            i <= dirs@.len(),
            dv == dirs.deep_view(),
            dv.len() == dirs@.len(),
            spec_select_java(dv, wanted) == spec_select_java(dv.skip(i as int), wanted),
        decreases dirs@.len() - i,
    {
        proof {
            assert(dv.skip(i as int)[0] == dv[i as int]);
            assert(dv[i as int] == dirs@[i as int].deep_view());
            assert(dirs@[i as int].0.deep_view() =~= dirs@[i as int].0@);
            assert(dirs@[i as int].1.deep_view() =~= dirs@[i as int].1@);
            assert(dv.skip(i as int).drop_first() =~= dv.skip(i + 1));
        }
        match parse_release_java_version(&dirs[i].1) {
            Some(v) if v == wanted => {
                let mut p = clone_bytes(&dirs[i].0);
                let suffix = bin_java_suffix_bytes();
                push_bytes(&mut p, &suffix);
                return Some(p);
            },
            _ => {},
        }
        i += 1;
    }
    proof {
        assert(dv.skip(i as int).len() == 0);
    }
    None
}

// ---------------------------------------------------------------------
// Merging the descriptor chain into the scripts' output
// ---------------------------------------------------------------------

/// Combines what the descriptor chain declares with what the launch
/// scripts produced: the chain's effective lists come first and the
/// scripts extend them; the scripts' main class and java version win
/// where set, else the chain's apply. `policy_bodies` are the contents
/// of the files named by `get_policy_files`, in that order; they
/// receive the same parse-time substitution (`files`, `root`, `path`)
/// as the argument lists before they join the scripts' policy bodies.
pub fn synthesize_outputs(
    inst: &crate::install::Installation,
    os: &Vec<u8>,
    policy_bodies: &Vec<Vec<u8>>,
    subst: &Vec<(Vec<u8>, Vec<u8>)>,
    scripts: ScriptOutputs,
) -> (r: ScriptOutputs)
    ensures
        r.main_class@ == (if scripts.main_class@.len() > 0 {
            scripts.main_class@
        } else {
            match inst.spec_effective_main_class() {
                Some(mc) => mc,
                None => Seq::<u8>::empty(),
            }
        }),
        strlist_view(r.classpath@) == inst.spec_effective_classpath(os@) + strlist_view(
            scripts.classpath@,
        ),
        strlist_view(r.java_arguments@) == inst.spec_effective_java_arguments() + strlist_view(
            scripts.java_arguments@,
        ),
        strlist_view(r.program_arguments@) == inst.spec_effective_program_arguments()
            + strlist_view(scripts.program_arguments@),
        strlist_view(r.policies@) == spec_sub_all(
            strlist_view(policy_bodies@),
            subst.deep_view(),
        ) + strlist_view(scripts.policies@),
        r.java_version == (if scripts.java_version != -1 {
            scripts.java_version
        } else {
            match inst.spec_effective_java_version() {
                Some(v) => v,
                None => -1i64,
            }
        }),
{
    let main_class = if scripts.main_class.len() > 0 {
        scripts.main_class
    } else {
        match inst.get_main_class() {
            Some(mc) => clone_bytes(mc),
            None => Vec::new(),
        }
    };
    let mut classpath = inst.get_classpath(os);
    crate::install::append_strs(&mut classpath, &scripts.classpath);
    let mut java_arguments = inst.get_java_arguments();
    crate::install::append_strs(&mut java_arguments, &scripts.java_arguments);
    let mut program_arguments = inst.get_program_arguments();
    crate::install::append_strs(&mut program_arguments, &scripts.program_arguments);
    let mut policies = sub_all(policy_bodies, subst);
    proof {
        assert(strlist_view(policies@) == spec_sub_all(
            strlist_view(policy_bodies@),
            subst.deep_view(),
        ));
    }
    crate::install::append_strs(&mut policies, &scripts.policies);
    let java_version = if scripts.java_version != -1 {
        scripts.java_version
    } else {
        match inst.get_java_version() {
            Some(v) => v,
            None => -1i64,
        }
    };
    ScriptOutputs {
        main_class,
        classpath,
        java_arguments,
        program_arguments,
        policies,
        java_version,
    }
}

} // verus!
