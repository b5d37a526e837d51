//! The options that choose which jobs are watched, and the `squeue`
//! arguments they stand for.
use vstd::prelude::*;

use crate::job::opt_view;
use crate::text::{chars_of, concat_string, eq_ignore_ascii_case, lower_ascii_seq, owned, string_of, trim, trim_str};

verus! {

/// Which jobs to show, as `squeue` selects them.
pub struct SqueueArgs {
    /// Comma-separated list of accounts to view.
    pub account: Option<String>,
    /// Report federated information if a member of one.
    pub federation: bool,
    /// Comma-separated list of job IDs to view.
    pub job: Option<String>,
    /// Report jobs only from the local cluster.
    pub local: bool,
    /// Cluster to query.
    pub clusters: Option<String>,
    /// Show only your own jobs.
    pub me: bool,
    /// Comma-separated list of job names to view.
    pub name: Option<String>,
    /// Keep resource units in their original form.
    pub noconvert: bool,
    /// Comma-separated list of partitions to view.
    pub partition: Option<String>,
    /// Comma-separated list of job states; ALL leaves states unfiltered.
    pub states: Option<String>,
    /// Comma-separated list of users to view.
    pub user: Option<String>,
    /// Comma-separated list of nodes to view.
    pub nodelist: Option<String>,
}

/// `flag` followed by the value, where there is one.
pub open spec fn value_arg(value: Option<Seq<char>>, flag: Seq<char>) -> Seq<Seq<char>> {
    match value {
        Some(v) => seq![flag + v],
        None => Seq::<Seq<char>>::empty(),
    }
}

/// `flag` where it is set.
pub open spec fn flag_arg(set: bool, flag: Seq<char>) -> Seq<Seq<char>> {
    if set {
        seq![flag]
    } else {
        Seq::<Seq<char>>::empty()
    }
}

impl SqueueArgs {
    /// Whether every user's jobs are shown: neither `--me` nor a user.
    pub open spec fn all_users(self) -> bool {
        !self.me && self.user is None
    }

    /// The `squeue` arguments, in a fixed order. Without an account, and
    /// showing every user, the account is the user's primary group where it
    /// is known. A state list of `all` (in any case) selects no state.
    pub open spec fn spec_to_vec(self, primary_group: Option<Seq<char>>) -> Seq<Seq<char>> {
        let account = match opt_view(self.account) {
            Some(a) => Some(a),
            None => if self.all_users() {
                primary_group
            } else {
                None
            },
        };
        let states = match opt_view(self.states) {
            Some(s) => if lower_ascii_seq(s) == "all"@ {
                None
            } else {
                Some(s)
            },
            None => None,
        };
        value_arg(account, "--accounts="@) + flag_arg(self.federation, "--federation"@) + value_arg(
            opt_view(self.job),
            "--jobs="@,
        ) + flag_arg(self.local, "--local"@) + value_arg(opt_view(self.clusters), "--clusters="@) + flag_arg(
            self.all_users(),
            "--allusers"@,
        ) + value_arg(opt_view(self.name), "--name="@) + flag_arg(self.noconvert, "--noconvert"@) + value_arg(
            opt_view(self.partition),
            "--partition="@,
        ) + value_arg(states, "--state="@) + value_arg(opt_view(self.user), "--user="@) + value_arg(
            opt_view(self.nodelist),
            "--node="@,
        )
    }

    /// The `squeue` arguments; `primary_group` is the user's primary group,
    /// where it is known.
    pub fn to_vec(&self, primary_group: Option<String>) -> (r: Vec<String>)
        ensures
            crate::text::string_views(r@) == self.spec_to_vec(opt_view(primary_group)),
    {
        let mut args: Vec<String> = Vec::new();
        let all_users = !self.me && self.user.is_none();
        let account = match &self.account {
            Some(a) => Some(a.clone()),
            None => if all_users {
                primary_group
            } else {
                None
            },
        };
        push_opt(&mut args, "--accounts=", &account);
        assert(crate::text::string_views(args@) =~= value_arg(opt_view(account), "--accounts="@));
        push_flag(&mut args, self.federation, "--federation");
        push_opt(&mut args, "--jobs=", &self.job);
        push_flag(&mut args, self.local, "--local");
        push_opt(&mut args, "--clusters=", &self.clusters);
        push_flag(&mut args, all_users, "--allusers");
        push_opt(&mut args, "--name=", &self.name);
        push_flag(&mut args, self.noconvert, "--noconvert");
        push_opt(&mut args, "--partition=", &self.partition);
        let states = match &self.states {
            Some(st) => {
                let sv = chars_of(st.as_str());
                let all = chars_of("all");
                proof {
                    reveal_strlit("all");
                    assert(lower_ascii_seq(all@) =~= "all"@);
                }
                if eq_ignore_ascii_case(sv.as_slice(), all.as_slice()) {
                    None
                } else {
                    Some(st.clone())
                }
            },
            None => None,
        };
        push_opt(&mut args, "--state=", &states);
        push_opt(&mut args, "--user=", &self.user);
        push_opt(&mut args, "--node=", &self.nodelist);
        args
    }
}

/// Appends `flag` where it is set.
fn push_flag(args: &mut Vec<String>, set: bool, flag: &str)
    ensures
        crate::text::string_views(final(args)@) == crate::text::string_views(old(args)@) + flag_arg(set, flag@),
{
    if set {
        args.push(owned(flag));
        assert(crate::text::string_views(args@) =~= crate::text::string_views(old(args)@) + seq![flag@]);
    } else {
        assert(crate::text::string_views(args@) =~= crate::text::string_views(old(args)@) + Seq::<Seq<char>>::empty());
    }
}

/// Appends `flag` followed by `value`.
fn push_value(args: &mut Vec<String>, flag: &str, value: &str)
    ensures
        crate::text::string_views(final(args)@) == crate::text::string_views(old(args)@).push(flag@ + value@),
{
    let f = chars_of(flag);
    let v = chars_of(value);
    args.push(concat_string(f.as_slice(), v.as_slice()));
    proof {
        assert(crate::text::string_views(args@) =~= crate::text::string_views(old(args)@).push(flag@ + value@));
    }
}

/// Appends `flag` followed by the value, where there is one.
fn push_opt(args: &mut Vec<String>, flag: &str, value: &Option<String>)
    ensures
        crate::text::string_views(final(args)@) == crate::text::string_views(old(args)@) + value_arg(
            opt_view(*value),
            flag@,
        ),
{
    match value {
        Some(v) => {
            push_value(args, flag, v.as_str());
            assert(crate::text::string_views(old(args)@).push(flag@ + v@) =~= crate::text::string_views(old(args)@)
                + seq![flag@ + v@]);
        },
        None => {
            assert(crate::text::string_views(old(args)@) + Seq::<Seq<char>>::empty() =~= crate::text::string_views(
                old(args)@,
            ));
        },
    }
}

/// The primary group that `id -gn` reported: its trimmed output, where it
/// succeeded and printed something.
pub open spec fn spec_primary_group(success: bool, output: Seq<char>) -> Option<Seq<char>> {
    if success && trim(output).len() > 0 {
        Some(trim(output))
    } else {
        None
    }
}

pub fn primary_group_from_output(success: bool, output: &str) -> (r: Option<String>)
    ensures
        opt_view(r) == spec_primary_group(success, output@),
{
    if !success {
        return None;
    }
    let t = trim_str(output);
    if t.len() == 0 {
        None
    } else {
        Some(string_of(t.as_slice()))
    }
}

} // verus!
