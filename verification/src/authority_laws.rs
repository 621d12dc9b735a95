//! Which accounts may work, when authority is asked for and how it is given back, in
//! terms of names, numbers and what the system answered.

use crate::authorization;
use crate::authorization::{
    authorization_request_path_is_safe_for_argv, initialize_com_for_shell,
    invoke_setup_authorization, run_user_phase, unix_authorization_executable_metadata_is_safe,
    unix_authorization_invocation, validated_privileged_phase_arguments,
    verify_setup_authorization_executable, verify_windows_authorization_executable,
    AuthorizationPaths, LaunchEvent, UnixAuthorizationInvocation, UnixPathFacts, UserPhaseRefusal,
    WindowsExecutableFacts,
};
use crate::error;
use crate::error::{ErrorKind, OsStatus, PlatformError};
use crate::number;
use crate::principal;
use crate::principal::{
    canonical_decimal, validate_principal_name, validate_unix_uid, validate_windows_sid,
    PrincipalKind, WorkerAccountPolicy, WorkerIsolation, WorkerPrincipal,
};
use crate::privilege;
use crate::privilege::{
    check_privilege, combine_privilege_errors, reconcile_windows_privileged_worker_mutation,
    restore_token_privileges_exact, validate_windows_restore_privilege_result, PrivilegeError,
    PrivilegeFacts, ThreadRestorePrivilege,
    WindowsPrivilegedWorkerMutation, WindowsPrivilegedWorkerMutationResolution,
};
use crate::scan;
use crate::text;
use crate::text_laws;
use vstd::prelude::*;
use vstd::utf8::encode_utf8;

verus! {

/// A refusal of something that was given.
pub open spec fn refused_as_given<T>(result: Result<T, PlatformError>) -> bool {
    result matches Err(PlatformError::Policy { kind: ErrorKind::InvalidInput, .. })
}

// ---------------------------------------------------------------------------
// Identifiers
// ---------------------------------------------------------------------------

proof fn lemma_canonical(value: Seq<char>, maximum: u64, n: u64)
    ensures
        principal::canonical(value, maximum) == Ok::<_, PlatformError>(n) <==> value
            == number::decimal(n as nat) && n <= maximum,
        principal::canonical(value, maximum) is Err ==> refused_as_given(
            principal::canonical(value, maximum),
        ),
{
    if value == number::decimal(n as nat) {
        number::decimal_round_trip(n as nat, u64::MAX as nat);
    }
}

/// A number is read exactly from its decimal text, and only up to the most that is
/// allowed.
pub proof fn numbers_have_one_text(
    value: &str,
    maximum: u64,
    result: Result<u64, PlatformError>,
    n: u64,
)
    requires
        call_ensures(canonical_decimal, (value, maximum), result),
    ensures
        result == Ok::<_, PlatformError>(n) <==> value@ == number::decimal(n as nat) && n
            <= maximum,
        result is Err ==> refused_as_given(result),
{
    lemma_canonical(value@, maximum, n);
}

/// Whether a text is that of a user other than root.
pub open spec fn is_user_id(value: Seq<char>) -> bool {
    exists|uid: u32| uid > 0 && value == #[trigger] number::decimal(uid as nat)
}

proof fn lemma_user_id(value: Seq<char>)
    ensures
        principal::unix_uid_verdict(value) is Ok <==> is_user_id(value),
        principal::unix_uid_verdict(value) is Err ==> refused_as_given(
            principal::unix_uid_verdict(value),
        ),
{
    if is_user_id(value) {
        let uid = choose|uid: u32| uid > 0 && value == #[trigger] number::decimal(uid as nat);
        number::decimal_round_trip(uid as nat, u32::MAX as nat);
    }
    if principal::unix_uid_verdict(value) is Ok {
        let uid = number::unsigned(value, 10, u32::MAX as nat)->0;
        let small = uid as u32;
        assert(small as nat == uid);
        assert(value == number::decimal(small as nat));
    }
}

/// A user id is accepted exactly where it is the decimal text of a number of thirty-two
/// bits other than zero.
pub proof fn user_ids_are_not_roots(value: &str, result: Result<(), PlatformError>)
    requires
        call_ensures(validate_unix_uid, (value,), result),
    ensures
        result is Ok <==> is_user_id(value@),
        result is Err ==> refused_as_given(result),
{
    lemma_user_id(value@);
}

/// How a SID is written: `S-1-`, its authority, and each sub-authority behind a hyphen.
pub open spec fn sid_text(authority: nat, subs: Seq<nat>) -> Seq<char>
    decreases subs.len(),
{
    if subs.len() == 0 {
        "S-1-"@ + number::decimal(authority)
    } else {
        sid_text(authority, subs.drop_last()) + seq!['-'] + number::decimal(subs.last())
    }
}

/// Whether a text is that of a SID with one to fifteen sub-authorities of thirty-two
/// bits and an authority of forty-eight.
pub open spec fn is_sid(value: Seq<char>) -> bool {
    exists|authority: nat, subs: Seq<nat>|
        authority <= 0xffff_ffff_ffff && 1 <= subs.len() <= 15 && (forall|i: int|
            0 <= i < subs.len() ==> #[trigger] subs[i] <= 0xffff_ffff) && value
            == #[trigger] sid_text(authority, subs)
}

proof fn lemma_decimal_has_no_hyphen(n: nat)
    ensures
        !number::decimal(n).contains('-'),
    decreases n,
{
    let digits = number::decimal(n);
    if n >= 10 {
        lemma_decimal_has_no_hyphen(n / 10);
    }
    if digits.contains('-') {
        let i = choose|i: int| 0 <= i < digits.len() && digits[i] == '-';
        if n >= 10 && i < digits.len() - 1 {
            assert(number::decimal(n / 10)[i] == '-');
        }
    }
}

proof fn lemma_split_last(left: Seq<char>, right: Seq<char>)
    requires
        !right.contains('-'),
    ensures
        scan::split_on(left + seq!['-'] + right, '-') == scan::split_on(left, '-') + seq![right],
    decreases left.len(),
{
    let whole = left + seq!['-'] + right;
    scan::lemma_until(left, '-');
    let n = scan::until(left, '-') as int;
    if n < left.len() {
        assert forall|i: int| 0 <= i < n implies whole[i] != '-' by {
            assert(whole[i] == left[i]);
        }
        assert(whole[n] == left[n]);
        scan::lemma_until_is(whole, '-', n);
        assert(whole.take(n) =~= left.take(n));
        assert(whole.skip(n + 1) =~= left.skip(n + 1) + seq!['-'] + right);
        lemma_split_last(left.skip(n + 1), right);
        assert(scan::split_on(whole, '-') =~= scan::split_on(left, '-') + seq![right]);
    } else {
        assert forall|i: int| 0 <= i < left.len() implies whole[i] != '-' by {
            assert(whole[i] == left[i]);
        }
        scan::lemma_until_is(whole, '-', left.len() as int);
        assert(whole.take(left.len() as int) =~= left);
        assert(whole.skip(left.len() as int + 1) =~= right);
        assert forall|i: int| 0 <= i < right.len() implies right[i] != '-' by {
            if right[i] == '-' {
                assert(right.contains('-'));
            }
        }
        scan::lemma_until_is(right, '-', right.len() as int);
        assert(scan::split_on(right, '-') == seq![right]);
        assert(scan::split_on(left, '-') == seq![left]);
        assert(scan::split_on(whole, '-') =~= seq![left] + seq![right]);
    }
}

spec fn sid_pieces(authority: nat, subs: Seq<nat>) -> Seq<Seq<char>> {
    seq![number::decimal(authority)] + subs.map_values(|n: nat| number::decimal(n))
}

proof fn lemma_sid_text(authority: nat, subs: Seq<nat>)
    ensures
        scan::begins_with(sid_text(authority, subs), "S-1-"@),
        scan::split_on(sid_text(authority, subs).skip("S-1-"@.len() as int), '-') == sid_pieces(
            authority,
            subs,
        ),
    decreases subs.len(),
{
    let mark = "S-1-"@;
    let m = mark.len() as int;
    let whole = sid_text(authority, subs);
    if subs.len() == 0 {
        let digits = number::decimal(authority);
        lemma_decimal_has_no_hyphen(authority);
        assert(whole.take(m) =~= mark);
        assert(whole.skip(m) =~= digits);
        assert forall|i: int| 0 <= i < digits.len() implies digits[i] != '-' by {
            if digits[i] == '-' {
                assert(digits.contains('-'));
            }
        }
        scan::lemma_until_is(digits, '-', digits.len() as int);
        assert(scan::split_on(digits, '-') == seq![digits]);
        assert(sid_pieces(authority, subs) =~= seq![digits]);
    } else {
        let fewer = subs.drop_last();
        let last = number::decimal(subs.last());
        lemma_sid_text(authority, fewer);
        lemma_decimal_has_no_hyphen(subs.last());
        let before = sid_text(authority, fewer);
        assert(whole.take(m) =~= before.take(m));
        assert(whole.skip(m) =~= before.skip(m) + seq!['-'] + last);
        lemma_split_last(before.skip(m), last);
        assert(sid_pieces(authority, subs) =~= sid_pieces(authority, fewer) + seq![last]);
    }
}

proof fn lemma_subs(pieces: Seq<Seq<char>>)
    ensures
        principal::sub_authorities_verdict(pieces) is Ok <==> forall|i: int|
            0 <= i < pieces.len() ==> principal::canonical(#[trigger] pieces[i], u32::MAX as u64)
                is Ok,
        principal::sub_authorities_verdict(pieces) is Err ==> refused_as_given(
            principal::sub_authorities_verdict(pieces),
        ),
    decreases pieces.len(),
{
    if pieces.len() > 0 {
        let tail = pieces.drop_first();
        lemma_subs(tail);
        lemma_canonical(pieces[0], u32::MAX as u64, 0);
        assert forall|i: int| 0 <= i < tail.len() implies (#[trigger] tail[i]) == pieces[i
            + 1] by {}
        if forall|i: int|
            0 <= i < pieces.len() ==> principal::canonical(#[trigger] pieces[i], u32::MAX as u64)
                is Ok {
            assert forall|i: int| 0 <= i < tail.len() implies principal::canonical(
                #[trigger] tail[i],
                u32::MAX as u64,
            ) is Ok by {
                assert(principal::canonical(pieces[i + 1], u32::MAX as u64) is Ok);
            }
        }
        if principal::sub_authorities_verdict(pieces) is Ok {
            assert forall|i: int| 0 <= i < pieces.len() implies principal::canonical(
                #[trigger] pieces[i],
                u32::MAX as u64,
            ) is Ok by {
                if i > 0 {
                    assert(principal::canonical(tail[i - 1], u32::MAX as u64) is Ok);
                }
            }
        }
    }
}

proof fn lemma_join_last(pieces: Seq<Seq<char>>)
    requires
        pieces.len() > 1,
    ensures
        scan::join(pieces, '-') == scan::join(pieces.drop_last(), '-') + seq!['-'] + pieces.last(),
    decreases pieces.len(),
{
    let head = pieces.drop_last();
    if pieces.len() == 2 {
        assert(pieces.drop_first() =~= seq![pieces[1]]);
        assert(head =~= seq![pieces[0]]);
        assert(scan::join(pieces.drop_first(), '-') == pieces[1]);
        assert(scan::join(pieces, '-') =~= pieces[0] + seq!['-'] + pieces[1]);
    } else {
        let tail = pieces.drop_first();
        lemma_join_last(tail);
        assert(tail.drop_last() =~= head.drop_first());
        assert(tail.last() == pieces.last());
        assert(scan::join(pieces, '-') =~= scan::join(head, '-') + seq!['-'] + pieces.last());
    }
}

proof fn lemma_pieces_text(authority: nat, subs: Seq<nat>)
    ensures
        "S-1-"@ + scan::join(sid_pieces(authority, subs), '-') == sid_text(authority, subs),
    decreases subs.len(),
{
    let pieces = sid_pieces(authority, subs);
    if subs.len() == 0 {
        assert(pieces =~= seq![number::decimal(authority)]);
        assert(pieces.len() == 1);
    } else {
        let fewer = subs.drop_last();
        lemma_pieces_text(authority, fewer);
        lemma_join_last(pieces);
        assert(pieces.drop_last() =~= sid_pieces(authority, fewer));
        assert(pieces.last() == number::decimal(subs.last()));
        assert("S-1-"@ + scan::join(pieces, '-') =~= sid_text(authority, subs));
    }
}

pub(crate) proof fn lemma_is_sid(value: Seq<char>)
    ensures
        principal::windows_sid_verdict(value) is Ok <==> is_sid(value) && value != "S-1-5-18"@,
        principal::windows_sid_verdict(value) is Err ==> refused_as_given(
            principal::windows_sid_verdict(value),
        ),
{
    let mark = "S-1-"@;
    let rest = value.skip(mark.len() as int);
    let pieces = scan::split_on(rest, '-');
    lemma_subs(pieces.drop_first());
    if is_sid(value) {
        let (authority, subs) = choose|authority: nat, subs: Seq<nat>|
            authority <= 0xffff_ffff_ffff && 1 <= subs.len() <= 15 && (forall|i: int|
                0 <= i < subs.len() ==> #[trigger] subs[i] <= 0xffff_ffff) && value
                == #[trigger] sid_text(authority, subs);
        lemma_sid_text(authority, subs);
        lemma_canonical(pieces[0], u64::MAX, authority as u64);
        let tail = pieces.drop_first();
        assert forall|i: int| 0 <= i < tail.len() implies principal::canonical(
            #[trigger] tail[i],
            u32::MAX as u64,
        ) is Ok by {
            assert(tail[i] == number::decimal(subs[i]));
            lemma_canonical(tail[i], u32::MAX as u64, subs[i] as u64);
        }
    }
    if scan::begins_with(value, mark) && 2 <= pieces.len() <= 16 {
        lemma_canonical(pieces[0], u64::MAX, 0);
        if let Ok(authority) = principal::canonical(pieces[0], u64::MAX) {
            lemma_canonical(pieces[0], u64::MAX, authority);
            let tail = pieces.drop_first();
            if authority <= principal::MAX_SID_AUTHORITY && principal::sub_authorities_verdict(
                tail,
            ) is Ok {
                let subs = Seq::new(
                    tail.len(),
                    |i: int| principal::canonical(tail[i], u32::MAX as u64)->Ok_0 as nat,
                );
                assert forall|i: int| 0 <= i < subs.len() implies #[trigger] subs[i]
                    <= 0xffff_ffff && tail[i] == number::decimal(subs[i]) by {
                    assert(principal::canonical(tail[i], u32::MAX as u64) is Ok);
                    lemma_canonical(
                        tail[i],
                        u32::MAX as u64,
                        principal::canonical(tail[i], u32::MAX as u64)->Ok_0,
                    );
                }
                let built = sid_pieces(authority as nat, subs);
                assert forall|i: int| 0 <= i < pieces.len() implies pieces[i] == built[i] by {
                    if i > 0 {
                        assert(tail[i - 1] == number::decimal(subs[i - 1]));
                    }
                }
                assert(pieces =~= built);
                scan::split_then_join(rest, '-');
                lemma_pieces_text(authority as nat, subs);
                assert(value =~= mark + rest);
                assert(value == sid_text(authority as nat, subs));
            }
        }
    }
}

/// A SID is accepted exactly where it is written as one, with the first revision, and is
/// not that of SYSTEM.
pub proof fn sids_are_written_in_one_way(value: &str, result: Result<(), PlatformError>)
    requires
        call_ensures(validate_windows_sid, (value,), result),
    ensures
        result is Ok <==> is_sid(value@) && value@ != "S-1-5-18"@,
        result is Err ==> refused_as_given(result),
{
    lemma_is_sid(value@);
}

/// Whether a text may name an account: one to 256 bytes, no white space at either end,
/// no control character, and nothing that could part it.
pub open spec fn may_name_account(name: Seq<char>) -> bool {
    &&& name.len() > 0
    &&& encode_utf8(name).len() <= 256
    &&& !text::is_white_space(name[0]) && !text::is_white_space(name.last())
    &&& forall|i: int|
        0 <= i < name.len() ==> !text::is_control(#[trigger] name[i]) && name[i] != '\\' && name[i]
            != '/' && name[i] != ':'
}

pub(crate) proof fn lemma_may_name_account(name: Seq<char>)
    ensures
        principal::principal_name_verdict(name) is Ok <==> may_name_account(name),
        principal::principal_name_verdict(name) is Err ==> refused_as_given(
            principal::principal_name_verdict(name),
        ),
{
    let none = Seq::<char>::empty();
    let margins = text_laws::texts_have_margins(name);
    if name.len() > 0 && !text::is_white_space(name[0]) && !text::is_white_space(name.last()) {
        text_laws::trimming_takes_margins_off(none, name, none);
        assert(none + name + none =~= name);
    }
    if may_name_account(name) {
        if text::has_control(name) {
            let i = choose|i: int| 0 <= i < name.len() && text::is_control(#[trigger] name[i]);
            assert(!text::is_control(name[i]));
        }
        if name.contains('\\') {
            let i = choose|i: int| 0 <= i < name.len() && name[i] == '\\';
            assert(name[i] != '\\');
        }
        if name.contains('/') {
            let i = choose|i: int| 0 <= i < name.len() && name[i] == '/';
            assert(name[i] != '/');
        }
        if name.contains(':') {
            let i = choose|i: int| 0 <= i < name.len() && name[i] == ':';
            assert(name[i] != ':');
        }
    }
    if principal::principal_name_verdict(name) is Ok {
        assert forall|i: int| 0 <= i < name.len() implies !text::is_control(#[trigger] name[i])
            && name[i] != '\\' && name[i] != '/' && name[i] != ':' by {
            if text::is_control(name[i]) {
                assert(text::has_control(name));
            }
            assert(name.contains(name[i]));
        }
    }
}

/// An account name is accepted exactly where it may name one, whatever the account.
pub proof fn account_names_are_unambiguous(
    kind: PrincipalKind,
    name: &str,
    result: Result<(), PlatformError>,
)
    requires
        call_ensures(validate_principal_name, (kind, name), result),
    ensures
        result is Ok <==> may_name_account(name@),
        result is Err ==> refused_as_given(result),
{
    lemma_may_name_account(name@);
}

/// A principal is made exactly of a name that may name an account and an identifier of
/// its kind, and keeps what it was made of.
pub proof fn principals_keep_what_they_are_made_of(
    kind: PrincipalKind,
    id: &str,
    name: &str,
    policy: WorkerAccountPolicy,
    result: Result<WorkerPrincipal, PlatformError>,
)
    requires
        call_ensures(WorkerPrincipal::new, (kind, id, name, policy), result),
    ensures
        result is Ok <==> may_name_account(name@) && if kind == PrincipalKind::UnixUid {
            is_user_id(id@)
        } else {
            is_sid(id@) && id@ != "S-1-5-18"@
        },
        result matches Ok(made) ==> made@.kind == kind && made@.id == id@ && made@.name == name@
            && made@.policy == policy,
        result is Err ==> refused_as_given(result),
{
    lemma_may_name_account(name@);
    lemma_user_id(id@);
    lemma_is_sid(id@);
}

/// A Unix principal has the user id that it was made with, a dedicated account is what
/// separates a worker, and principals are the same where all their parts are.
pub proof fn principals_are_what_they_say(
    one: &WorkerPrincipal,
    other: &WorkerPrincipal,
    uid: Result<u32, PlatformError>,
    isolation: WorkerIsolation,
    same: bool,
)
    requires
        call_ensures(WorkerPrincipal::unix_uid, (one,), uid),
        call_ensures(WorkerPrincipal::isolation, (one,), isolation),
        call_ensures(WorkerPrincipal::same_as, (one, other), same),
    ensures
        uid is Ok <==> one@.kind == PrincipalKind::UnixUid,
        uid matches Ok(uid) ==> uid > 0 && number::decimal(uid as nat) == one@.id,
        isolation == WorkerIsolation::DedicatedAccount <==> one@.policy
            == WorkerAccountPolicy::Dedicated,
        same <==> one@.kind == other@.kind && one@.id == other@.id && one@.name == other@.name
            && one@.policy == other@.policy,
{
}

// ---------------------------------------------------------------------------
// Privileges
// ---------------------------------------------------------------------------

/// A change succeeds exactly where neither it nor giving back the privilege failed; a
/// privilege that was not given back outweighs a change that failed. What the change
/// left is kept in every case.
pub proof fn changes_keep_what_they_left<Evidence>(
    mutation: WindowsPrivilegedWorkerMutation<Evidence>,
    cleanup: Result<(), PrivilegeError>,
    resolution: WindowsPrivilegedWorkerMutationResolution<Evidence>,
)
    requires
        call_ensures(
            reconcile_windows_privileged_worker_mutation::<Evidence>,
            (mutation, cleanup),
            resolution,
        ),
    ensures
        resolution is Success <==> cleanup is Ok && mutation.operation_error is None,
        resolution is OperationFailure <==> cleanup is Ok && mutation.operation_error is Some,
        match resolution {
            WindowsPrivilegedWorkerMutationResolution::Success(evidence) => evidence
                == mutation.evidence,
            WindowsPrivilegedWorkerMutationResolution::OperationFailure { error, evidence } =>
                evidence == mutation.evidence && Some(error) == mutation.operation_error,
            WindowsPrivilegedWorkerMutationResolution::Failure {
                operation_error,
                cleanup_error,
                evidence,
            } => evidence == mutation.evidence && operation_error == mutation.operation_error
                && cleanup == Err::<(), _>(cleanup_error),
        },
{
}

/// The privilege to restore owners is not needed for one's own directories; for others
/// it was given exactly where it was asked for and the system reported nothing. That it
/// was not assigned is a refusal; every other report is passed on.
pub proof fn privileges_are_given_in_full(
    own: bool,
    adjusted: bool,
    last: OsStatus,
    result: Result<bool, PlatformError>,
)
    requires
        call_ensures(validate_windows_restore_privilege_result, (own, adjusted, last), result),
    ensures
        result == Ok::<_, PlatformError>(false) <==> own,
        result == Ok::<_, PlatformError>(true) <==> !own && adjusted && last.code == 0,
        !own && adjusted && last.code == 1300 ==> (result matches Err(PlatformError::Policy {
            kind: ErrorKind::PermissionDenied,
            ..
        })),
        !own && (!adjusted || last.code != 0 && last.code != 1300) ==> result == Err::<bool, _>(
            PlatformError::Native { kind: last.kind, code: Some(last.code) },
        ),
{
}

/// The privilege was got exactly where its tokens and its number were, the system gave
/// it in full, and its earlier state fits.
pub proof fn privileges_are_got_step_by_step(
    facts: &PrivilegeFacts,
    result: Result<(), PlatformError>,
)
    requires
        call_ensures(check_privilege, (facts,), result),
    ensures
        result is Ok <==> {
            &&& facts.process_token is Ok && facts.thread_token is Ok
            &&& facts.privilege_number is Ok
            &&& facts.adjusted && facts.last_error.code == 0
            &&& facts.previous_length <= facts.state_size
        },
        facts.process_token matches Err(failure) ==> result == Err::<(), _>(failure),
        facts.process_token is Ok && facts.thread_token is Err ==> result == facts.thread_token,
        facts.process_token is Ok && facts.thread_token is Ok && facts.privilege_number is Err
            ==> result == facts.privilege_number,
{
    reveal_with_fuel(error::first_refusal, 5);
    let all = seq![facts.process_token, facts.thread_token, facts.privilege_number];
    assert(all.drop_first()[0] == facts.thread_token);
    assert(all.drop_first().drop_first()[0] == facts.privilege_number);
}

/// A thread has the privilege exactly where it was got and the thread acts with it; its
/// earlier state is then kept as it was. Where the thread cannot act with it, the earlier
/// state is restored, and a failure of that is told besides.
pub proof fn privileges_are_kept_with_their_earlier_state<
    State,
    F: FnOnce(State) -> Result<(), PlatformError>,
>(
    facts: &PrivilegeFacts,
    previous: State,
    restore: F,
    got: Result<(), PlatformError>,
    result: Result<ThreadRestorePrivilege<State>, PrivilegeError>,
)
    requires
        call_ensures(check_privilege, (facts,), got),
        call_ensures(
            ThreadRestorePrivilege::<State>::enable::<F>,
            (facts, previous, restore),
            result,
        ),
    ensures
        result is Ok <==> got is Ok && facts.impersonating is Ok,
        result matches Ok(privilege) ==> privilege.restorer.previous == previous,
        got matches Err(failure) ==> result == Err::<ThreadRestorePrivilege<State>, _>(
            PrivilegeError::Single(failure),
        ),
        got is Ok && facts.impersonating is Err ==> match result {
            Err(PrivilegeError::Single(failure)) => failure == facts.impersonating->Err_0
                && call_ensures(restore, (previous,), Ok(())),
            Err(PrivilegeError::Combined(both)) => both.primary == facts.impersonating->Err_0
                && call_ensures(restore, (previous,), Err(both.secondary)),
            Ok(_) => false,
        },
{
}

/// A privilege is given back exactly where its earlier state was restored and the thread
/// acts for itself again; the second is done whatever came of the first, and of two
/// failures both are told.
pub proof fn privileges_are_given_back_in_two_steps<State, F, G>(
    privilege: ThreadRestorePrivilege<State>,
    restore: F,
    revert: G,
    result: Result<(), PrivilegeError>,
) where
    F: FnOnce(State) -> Result<(), PlatformError>,
    G: FnOnce() -> Result<(), PlatformError>,

    requires
        call_ensures(
            ThreadRestorePrivilege::<State>::restore_and_revert::<F, G>,
            (privilege, restore, revert),
            result,
        ),
    ensures
        result is Ok ==> call_ensures(restore, (privilege.restorer.previous,), Ok(()))
            && call_ensures(revert, (), Ok(())),
        result matches Err(PrivilegeError::Single(failure)) ==> {
            ||| call_ensures(restore, (privilege.restorer.previous,), Err(failure))
                && call_ensures(revert, (), Ok(()))
            ||| call_ensures(restore, (privilege.restorer.previous,), Ok(())) && call_ensures(
                revert,
                (),
                Err(failure),
            )
        },
        result matches Err(PrivilegeError::Combined(both)) ==> call_ensures(
            restore,
            (privilege.restorer.previous,),
            Err(both.primary),
        ) && call_ensures(revert, (), Err(both.secondary)),
{
    assert(privilege::undone(privilege, restore, revert, result));
    let (restoration, reversion): (Result<(), PlatformError>, Result<(), PlatformError>) = choose|
        restoration: Result<(), PlatformError>,
        reversion: Result<(), PlatformError>,
    |
        #![trigger privilege::given_back(restoration, reversion)]
        call_ensures(restore, (privilege.restorer.previous,), restoration) && call_ensures(
            revert,
            (),
            reversion,
        ) && result == privilege::given_back(restoration, reversion);
    if let Ok(nothing) = restoration {
        assert(nothing == ());
    }
    if let Ok(nothing) = reversion {
        assert(nothing == ());
    }
}

/// The exact state of a privilege was restored exactly where the system said so and
/// reported nothing.
pub proof fn states_are_restored_exactly(
    adjusted: bool,
    last: OsStatus,
    result: Result<(), PlatformError>,
)
    requires
        call_ensures(restore_token_privileges_exact, (adjusted, last), result),
    ensures
        result is Ok <==> adjusted && last.code == 0,
        last.code != 0 ==> result == Err::<(), _>(
            PlatformError::Native { kind: last.kind, code: Some(last.code) },
        ),
{
}

/// Giving a privilege back succeeds exactly where both the state was restored and the
/// thread acts for itself again; a failure of either is kept, and of both both.
pub proof fn privileges_are_given_back(
    restoration: Result<(), PlatformError>,
    reversion: Result<(), PlatformError>,
)
    ensures
        privilege::given_back(restoration, reversion) is Ok <==> restoration is Ok && reversion
            is Ok,
        privilege::given_back(restoration, reversion) matches Err(failure) ==> match failure {
            PrivilegeError::Single(one) => restoration == Err::<(), _>(one) && reversion is Ok
                || restoration is Ok && reversion == Err::<(), _>(one),
            PrivilegeError::Combined(both) => restoration == Err::<(), _>(both.primary)
                && reversion == Err::<(), _>(both.secondary),
        },
{
}

/// Two failures are joined with nothing lost, and are of the kind of the first.
pub proof fn joined_failures_keep_both(
    first_label: &'static str,
    first: PlatformError,
    second_label: &'static str,
    second: PlatformError,
    failure: PrivilegeError,
    kind: ErrorKind,
    said_first: &str,
    said_second: &str,
    said: String,
)
    requires
        call_ensures(
            combine_privilege_errors,
            (first_label, first, second_label, second),
            failure,
        ),
        call_ensures(PrivilegeError::kind, (&failure,), kind),
        call_ensures(PrivilegeError::text, (&failure, said_first, said_second), said),
    ensures
        failure matches PrivilegeError::Combined(both) && both.primary == first && both.secondary
            == second,
        kind == first.spec_kind(),
        said@ == first_label@ + ": "@ + said_first@ + "; "@ + second_label@ + ": "@ + said_second@,
{
}

// ---------------------------------------------------------------------------
// Asking for authority
// ---------------------------------------------------------------------------

/// Whether a text has a word in it, in large or small letters.
pub open spec fn mentions(said: Seq<char>, word: Seq<char>) -> bool {
    exists|i: int|
        0 <= i && i + word.len() <= said.len() && #[trigger] scan::lower(said).subrange(
            i,
            i + word.len(),
        ) == word
}

/// Whether a path may be shown: it has no control character, none of `=?#'"`, and no
/// word that tells of a secret.
pub open spec fn may_be_shown(path: Seq<char>) -> bool {
    &&& forall|i: int|
        0 <= i < path.len() ==> !text::is_control(#[trigger] path[i]) && path[i] != '=' && path[i]
            != '?' && path[i] != '#' && path[i] != '\'' && path[i] != '"'
    &&& !mentions(path, "api_key"@) && !mentions(path, "apikey"@)
    &&& !mentions(path, "auth_key"@) && !mentions(path, "authkey"@)
    &&& !mentions(path, "password"@) && !mentions(path, "passwd"@)
    &&& !mentions(path, "private_key"@) && !mentions(path, "credential"@)
    &&& !mentions(path, "bearer"@) && !mentions(path, "secret"@) && !mentions(path, "token"@)
}

proof fn lemma_mentions(said: Seq<char>, word: Seq<char>)
    ensures
        scan::occurs(scan::lower(said), word) == mentions(said, word),
{
    assert(scan::lower(said).len() == said.len());
}

proof fn lemma_may_be_shown(path: Option<Seq<char>>)
    ensures
        authorization::safe_for_argv(path) <==> path is Some && may_be_shown(path->0),
{
    if let Some(path) = path {
        lemma_mentions(path, "api_key"@);
        lemma_mentions(path, "apikey"@);
        lemma_mentions(path, "auth_key"@);
        lemma_mentions(path, "authkey"@);
        lemma_mentions(path, "password"@);
        lemma_mentions(path, "passwd"@);
        lemma_mentions(path, "private_key"@);
        lemma_mentions(path, "credential"@);
        lemma_mentions(path, "bearer"@);
        lemma_mentions(path, "secret"@);
        lemma_mentions(path, "token"@);
        if may_be_shown(path) {
            assert forall|i: int| 0 <= i < path.len() implies !authorization::is_unsafe_char(
                #[trigger] path[i],
            ) by {}
        }
        if authorization::safe_for_argv(Some(path)) {
            assert forall|i: int| 0 <= i < path.len() implies !text::is_control(#[trigger] path[i])
                && path[i] != '=' && path[i] != '?' && path[i] != '#' && path[i] != '\''
                && path[i] != '"' by {
                assert(!authorization::is_unsafe_char(path[i]));
            }
        }
    }
}

/// A path is safe among arguments exactly where it is text that may be shown.
pub proof fn shown_paths_tell_nothing(path: &Option<String>, safe: bool)
    requires
        call_ensures(authorization_request_path_is_safe_for_argv, (path,), safe),
    ensures
        safe <==> (*path matches Some(said) && may_be_shown(said@)),
{
    lemma_may_be_shown(text::optional_text(*path));
}

/// Whether authority may be asked for: the paths are absolute, the program is the
/// running one, the request's path goes straight to `authorization-request.json` and may
/// be shown, and its digest is sixty-four lower-case hexadecimal digits.
pub open spec fn may_be_asked_for(paths: AuthorizationPaths, digest: Seq<char>) -> bool {
    &&& paths.executable_is_absolute && paths.request_is_absolute && paths.current_is_absolute
    &&& paths.canonical_executable is Ok && paths.canonical_current is Ok
    &&& paths.canonical_executable->Ok_0@ == paths.canonical_current->Ok_0@
    &&& !paths.request_has_relative_component
    &&& paths.request_file_name matches Some(name) && name@ == encode_utf8(
        "authorization-request.json"@,
    )
    &&& paths.request_text matches Some(path) && may_be_shown(path@)
    &&& digest.len() == 64
    &&& forall|i: int|
        0 <= i < digest.len() ==> ('0' <= #[trigger] digest[i] <= '9' || 'a' <= digest[i] <= 'f')
}

/// Authority is asked for exactly where it may be, to run the privileged phase of setup
/// on the request and its digest; on Unix by `sudo`, with the program that was verified
/// behind the end of options.
pub proof fn authority_is_asked_for_one_phase(
    paths: &AuthorizationPaths,
    digest: &str,
    arguments: Result<Vec<String>, PlatformError>,
    invocation: Result<UnixAuthorizationInvocation, PlatformError>,
)
    requires
        call_ensures(validated_privileged_phase_arguments, (paths, digest), arguments),
        call_ensures(unix_authorization_invocation, (paths, digest), invocation),
    ensures
        arguments is Ok <==> may_be_asked_for(*paths, digest@),
        arguments matches Ok(all) ==> text::string_views(all@) == seq![
            "setup"@,
            "privileged-phase"@,
            "--request"@,
            paths.request_text->0@,
            "--digest"@,
            digest@,
        ],
        invocation is Ok <==> may_be_asked_for(*paths, digest@),
        invocation matches Ok(started) ==> {
            &&& started.program@ == "/usr/bin/sudo"@
            &&& text::byte_views(started.arguments@) == seq![
                encode_utf8("--"@),
                paths.canonical_executable->Ok_0@,
                encode_utf8("setup"@),
                encode_utf8("privileged-phase"@),
                encode_utf8("--request"@),
                encode_utf8(paths.request_text->0@),
                encode_utf8("--digest"@),
                encode_utf8(digest@),
            ]
        },
        arguments matches Err(failure) ==> {
            ||| paths.canonical_executable == Err::<Vec<u8>, _>(failure)
            ||| paths.canonical_current == Err::<Vec<u8>, _>(failure)
            ||| failure is Policy && (failure.spec_kind() == ErrorKind::InvalidInput
                || failure.spec_kind() == ErrorKind::PermissionDenied)
        },
{
    lemma_may_be_shown(text::optional_text(paths.request_text));
    if let Ok(started) = invocation {
        let texts = authorization::phase_arguments(paths.request_text->0@, digest@);
        assert(text::byte_views(started.arguments@) =~= seq![
            encode_utf8("--"@),
            paths.canonical_executable->Ok_0@,
            encode_utf8("setup"@),
            encode_utf8("privileged-phase"@),
            encode_utf8("--request"@),
            encode_utf8(paths.request_text->0@),
            encode_utf8("--digest"@),
            encode_utf8(digest@),
        ]);
    }
}

/// A program may be started with authority exactly where it is a file of root's that
/// someone can run, that gains nothing when started, and that only root can write.
pub proof fn programs_with_authority_are_roots(is_file: bool, uid: u32, mode: u32, safe: bool)
    requires
        call_ensures(unix_authorization_executable_metadata_is_safe, (is_file, uid, mode), safe),
    ensures
        safe <==> is_file && uid == 0 && mode & 0x49 != 0 && mode & 0xc00 == 0 && mode & 0x12 == 0,
{
}

/// Whether a directory above such a program is one that only root can change.
pub open spec fn is_roots(facts: Result<UnixPathFacts, PlatformError>) -> bool {
    &&& facts is Ok
    &&& facts->Ok_0.is_directory
    &&& facts->Ok_0.uid == 0
    &&& facts->Ok_0.mode & 0x12 == 0
    &&& facts->Ok_0.path_security is Ok
}

/// A program and the directories above it are accepted exactly where it may be started
/// with authority and every one of them is one that only root can change.
pub proof fn paths_with_authority_are_roots(
    executable: &Result<UnixPathFacts, PlatformError>,
    ancestors: &[Result<UnixPathFacts, PlatformError>],
    result: Result<(), PlatformError>,
)
    requires
        call_ensures(verify_setup_authorization_executable, (executable, ancestors), result),
    ensures
        result is Ok <==> {
            &&& *executable is Ok
            &&& executable->Ok_0.is_file && executable->Ok_0.uid == 0
            &&& executable->Ok_0.mode & 0x49 != 0
            &&& executable->Ok_0.mode & 0xc00 == 0
            &&& executable->Ok_0.mode & 0x12 == 0
            &&& executable->Ok_0.path_security is Ok
            &&& forall|i: int| 0 <= i < ancestors@.len() ==> is_roots(#[trigger] ancestors@[i])
        },
        *executable matches Err(failure) ==> result == Err::<(), _>(failure),
{
    let judge = |facts: Result<UnixPathFacts, PlatformError>|
        authorization::unix_ancestor_verdict(facts);
    let verdicts = ancestors@.map_values(judge);
    lemma_first_refusal(verdicts);
    assert forall|i: int| 0 <= i < ancestors@.len() implies (#[trigger] verdicts[i]) is Ok
        == is_roots(ancestors@[i]) by {}
    if error::first_refusal(verdicts) is Ok {
        assert forall|i: int| 0 <= i < ancestors@.len() implies is_roots(
            #[trigger] ancestors@[i],
        ) by {
            assert(verdicts[i] is Ok);
        }
    }
    if forall|i: int| 0 <= i < ancestors@.len() ==> is_roots(#[trigger] ancestors@[i]) {
        assert forall|i: int| 0 <= i < verdicts.len() implies (#[trigger] verdicts[i]) is Ok by {
            assert(is_roots(ancestors@[i]));
        }
    }
}

pub(crate) proof fn lemma_first_refusal(checks: Seq<Result<(), PlatformError>>)
    ensures
        error::first_refusal(checks) is Ok <==> forall|i: int|
            0 <= i < checks.len() ==> (#[trigger] checks[i]) is Ok,
        error::first_refusal(checks) is Err ==> exists|i: int|
            0 <= i < checks.len() && #[trigger] checks[i] == error::first_refusal(checks)
                && forall|j: int| 0 <= j < i ==> (#[trigger] checks[j]) is Ok,
    decreases checks.len(),
{
    if checks.len() > 0 {
        let tail = checks.drop_first();
        assert forall|i: int| 0 <= i < tail.len() implies (#[trigger] tail[i]) == checks[i
            + 1] by {}
        if checks[0] is Err {
            assert(checks[0] == error::first_refusal(checks));
        } else {
            lemma_first_refusal(tail);
            if error::first_refusal(tail) is Ok {
                assert forall|i: int| 0 <= i < checks.len() implies (#[trigger] checks[i])
                    is Ok by {
                    if i > 0 {
                        assert(tail[i - 1] is Ok);
                    }
                }
            } else {
                let i = choose|i: int|
                    0 <= i < tail.len() && #[trigger] tail[i] == error::first_refusal(tail)
                        && forall|j: int| 0 <= j < i ==> (#[trigger] tail[j]) is Ok;
                assert(checks[i + 1] == error::first_refusal(checks));
                assert forall|j: int| 0 <= j < i + 1 implies (#[trigger] checks[j]) is Ok by {
                    if j > 0 {
                        assert(tail[j - 1] is Ok);
                    }
                }
            }
        }
    }
}

/// A sequence of checks comes to its first refusal.
pub proof fn checks_come_to_their_first_refusal(
    checks: &[Result<(), PlatformError>],
    result: Result<(), PlatformError>,
)
    requires
        call_ensures(error::require_all, (checks,), result),
    ensures
        result is Ok <==> forall|i: int| 0 <= i < checks@.len() ==> (#[trigger] checks@[i]) is Ok,
        result is Err ==> exists|i: int|
            0 <= i < checks@.len() && #[trigger] checks@[i] == result && forall|j: int|
                0 <= j < i ==> (#[trigger] checks@[j]) is Ok,
{
    lemma_first_refusal(checks@);
}

/// A program on Windows is accepted exactly where it stands on a local drive, is the
/// running one before and after, and every check of it and of what is above it passed.
pub proof fn windows_programs_are_checked_throughout(
    facts: &WindowsExecutableFacts,
    result: Result<(), PlatformError>,
)
    requires
        call_ensures(verify_windows_authorization_executable, (facts,), result),
    ensures
        result is Ok <==> {
            &&& facts.on_local_drive
            &&& facts.is_current
            &&& facts.is_still_current
            &&& forall|i: int|
                0 <= i < facts.checks@.len() ==> (#[trigger] facts.checks@[i]) is Ok
        },
        !facts.on_local_drive || !facts.is_current ==> (result matches Err(PlatformError::Policy {
            kind: ErrorKind::PermissionDenied,
            ..
        })),
{
    lemma_first_refusal(facts.checks@);
}

/// Starting a program with authority comes to its exit status where it ended, to nothing
/// yet where it runs, and to a failure otherwise. A user who declined is a refusal.
pub proof fn launches_come_to_an_exit_status(
    event: LaunchEvent,
    result: Result<Option<u32>, PlatformError>,
)
    requires
        call_ensures(invoke_setup_authorization, (event,), result),
    ensures
        event matches LaunchEvent::Exited { code } ==> result == Ok::<_, PlatformError>(
            Some(code),
        ),
        result matches Ok(Some(_)) ==> event is Exited,
        result matches Ok(None) <==> (event matches LaunchEvent::Started { process } && process
            >= 33),
        event matches LaunchEvent::Lost { failure } ==> result == Err::<Option<u32>, _>(failure),
        event matches LaunchEvent::NotStarted { failure } ==> if (failure
            matches PlatformError::Native { code, .. } && code == Some(1223i32)) {
            result matches Err(PlatformError::Policy { kind: ErrorKind::PermissionDenied, .. })
        } else {
            result == Err::<Option<u32>, _>(failure)
        },
        event is IdentityChanged ==> (result matches Err(PlatformError::Policy {
            kind: ErrorKind::PermissionDenied,
            ..
        })),
{
}

/// The shell's library is released exactly where this call got it.
pub proof fn shells_are_released_where_they_were_got(
    status: i32,
    result: Result<bool, PlatformError>,
)
    requires
        call_ensures(initialize_com_for_shell, (status,), result),
    ensures
        result == Ok::<_, PlatformError>(true) <==> status >= 0,
        result == Ok::<_, PlatformError>(false) <==> status == -2147417850,
{
}

/// Work for a user is refused: over 64 KiB for its size, and otherwise because nothing
/// runs it.
pub proof fn user_work_is_refused(
    worker: &WorkerPrincipal,
    request: &[u8],
    refusal: UserPhaseRefusal,
)
    requires
        call_ensures(run_user_phase, (worker, request), refusal),
    ensures
        refusal.kind == if request@.len() > 65536 {
            ErrorKind::InvalidData
        } else {
            ErrorKind::Unsupported
        },
{
}

} // verus!
