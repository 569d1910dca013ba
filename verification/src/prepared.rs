//! Launch composition: validating the requested options against the merged
//! traits, assembling JVM and game arguments, substituting `${name}`
//! placeholders, and producing the immutable `PreparedLaunch`. Spawning the
//! process is I/O and stays with the caller.

use vstd::prelude::*;
use vstd::string::StrSliceExecFns;

use crate::account::Account;
use crate::error::LaunchError;
use crate::instance::{Instance, InstanceLaunchConfig};
use crate::merge::MergedComponents;
use crate::meta::{ConditionFeature, MinecraftArgument};
use crate::seqops::{concat_map, lemma_concat_map_take_succ};
use crate::strutil::{dup_strings, push_char, spec_dec, str_eq, strs, u32_to_dec};

verus! {

/// The terminal artifact of launch preparation: everything needed to spawn
/// the game process.
#[derive(Debug)]
pub struct PreparedLaunch {
    pub working_directory: String,
    pub java_path: String,
    pub jvm_args: Vec<String>,
    pub classpath: Vec<String>,
    pub main_class: String,
    pub args: Vec<String>,
}

/// What the caller asked of this launch: an optional world to enter
/// directly, and an optional signed-in account.
#[derive(Debug)]
pub struct LaunchOptions {
    world: Option<String>,
    account: Option<Account>,
}

impl Default for LaunchOptions {
    /// No world, no account.
    fn default() -> (r: Self)
        ensures
            r.spec_world() is None,
            r.spec_account() is None,
    {
        LaunchOptions { world: Option::None, account: Option::None }
    }
}

impl LaunchOptions {
    pub closed spec fn spec_world(&self) -> Option<String> {
        self.world
    }

    pub closed spec fn spec_account(&self) -> Option<Account> {
        self.account
    }

    /// Replaces the world request, keeping the account.
    pub fn world(self, world: Option<String>) -> (r: Self)
        ensures
            r.spec_world() == world,
            r.spec_account() == self.spec_account(),
    {
        Self { world, ..self }
    }

    /// Replaces the account, keeping the world request.
    pub fn account(self, account: Option<Account>) -> (r: Self)
        ensures
            r.spec_account() == account,
            r.spec_world() == self.spec_world(),
    {
        Self { account, ..self }
    }

    pub fn has_world(&self) -> (r: bool)
        ensures
            r == (self.spec_world() is Some),
    {
        self.world.is_some()
    }

    /// The identity to launch with: the account's username, UUID and token,
    /// or the offline defaults when no account is given.
    pub fn account_or_default(&self) -> (r: (String, String, String))
        ensures
            (match self.spec_account() {
                Option::Some(a) => r.0@ == a.username@ && r.1@ == a.uuid@ && r.2@ == a.token@,
                Option::None => r.0@ == "Player"@ && r.1@
                    == "00000000-0000-0000-0000-000000000000"@ && r.2@ == ""@,
            }),
    {
        match &self.account {
            Option::Some(account) => (
                account.username.clone(),
                account.uuid.clone(),
                account.token.clone(),
            ),
            Option::None => (
                "Player".to_owned(),
                "00000000-0000-0000-0000-000000000000".to_owned(),
                "".to_owned(),
            ),
        }
    }
}

/// Whether a conditional argument's feature holds: the demo feature holds
/// exactly when no account was supplied, the quick-play-world feature
/// exactly when a world was requested, and unrecognized features never.
pub open spec fn spec_feature_active(f: ConditionFeature, has_account: bool, has_world: bool) -> bool {
    match f {
        ConditionFeature::Demo => !has_account,
        ConditionFeature::QuickPlayWorld => has_world,
        ConditionFeature::Other => false,
    }
}

/// What one argument contributes to the composed list: always-arguments
/// unconditionally, conditionals only when their feature holds.
pub open spec fn spec_arg_contribution(
    a: MinecraftArgument,
    has_account: bool,
    has_world: bool,
) -> Seq<Seq<char>> {
    match a {
        MinecraftArgument::Always(s) => seq![s@],
        MinecraftArgument::Conditional { value, feature } => {
            if spec_feature_active(feature, has_account, has_world) {
                seq![value@]
            } else {
                Seq::<Seq<char>>::empty()
            }
        },
    }
}

pub open spec fn arg_values(has_account: bool, has_world: bool) -> spec_fn(MinecraftArgument) -> Seq<
    Seq<char>,
> {
    |a: MinecraftArgument| spec_arg_contribution(a, has_account, has_world)
}

/// The game arguments that survive conditional filtering, in order.
pub open spec fn spec_filtered_args(
    args: Seq<MinecraftArgument>,
    has_account: bool,
    has_world: bool,
) -> Seq<Seq<char>> {
    concat_map(args, arg_values(has_account, has_world))
}

/// Filters the merged argument list against the launch options.
pub fn filter_arguments(args: &Vec<MinecraftArgument>, has_account: bool, has_world: bool) -> (r:
    Vec<String>)
    ensures
        strs(r@) == spec_filtered_args(args@, has_account, has_world),
{
    let mut out: Vec<String> = Vec::new();
    let n = args.len();
    let mut i: usize = 0;
    while i < n
        invariant
            n == args@.len(),
            i <= n,
            strs(out@) == spec_filtered_args(args@.take(i as int), has_account, has_world),
        decreases n - i,
    {
        proof {
            lemma_concat_map_take_succ(args@, arg_values(has_account, has_world), i as int);
        }
        match &args[i] {
            MinecraftArgument::Always(s) => {
                out.push(s.clone());
                assert(strs(out@) =~= spec_filtered_args(args@.take(i as int), has_account, has_world)
                    + spec_arg_contribution(args@[i as int], has_account, has_world));
            },
            MinecraftArgument::Conditional { value, feature } => {
                let active = match feature {
                    ConditionFeature::Demo => !has_account,
                    ConditionFeature::QuickPlayWorld => has_world,
                    ConditionFeature::Other => false,
                };
                if active {
                    out.push(value.clone());
                    assert(strs(out@) =~= spec_filtered_args(
                        args@.take(i as int),
                        has_account,
                        has_world,
                    ) + spec_arg_contribution(args@[i as int], has_account, has_world));
                } else {
                    assert(strs(out@) =~= spec_filtered_args(
                        args@.take(i as int),
                        has_account,
                        has_world,
                    ) + spec_arg_contribution(args@[i as int], has_account, has_world));
                }
            },
        }
        assert(strs(out@) =~= spec_filtered_args(args@.take(i as int + 1), has_account, has_world));
        i = i + 1;
    }
    proof {
        assert(args@.take(n as int) =~= args@);
    }
    out
}

/// The view of a property table.
pub open spec fn pv() -> spec_fn((String, String)) -> (Seq<char>, Seq<char>) {
    |p: (String, String)| (p.0@, p.1@)
}

pub open spec fn props_v(props: Seq<(String, String)>) -> Seq<(Seq<char>, Seq<char>)> {
    props.map_values(pv())
}

/// The value of the first property with the given name.
pub open spec fn spec_lookup(props: Seq<(Seq<char>, Seq<char>)>, k: Seq<char>) -> Option<Seq<char>>
    decreases props.len(),
{
    if props.len() == 0 {
        Option::None
    } else if props[0].0 == k {
        Option::Some(props[0].1)
    } else {
        spec_lookup(props.drop_first(), k)
    }
}

/// A character allowed inside a `${...}` placeholder name.
pub open spec fn spec_name_char(c: char) -> bool {
    ||| (97 <= c as u32 && c as u32 <= 122)
    ||| (65 <= c as u32 && c as u32 <= 90)
    ||| (48 <= c as u32 && c as u32 <= 57)
    ||| c == '_'
    ||| c == '.'
}

/// The length of the maximal leading run of placeholder-name characters.
pub open spec fn spec_name_run(s: Seq<char>) -> nat
    decreases s.len(),
{
    if s.len() > 0 && spec_name_char(s[0]) {
        1 + spec_name_run(s.drop_first())
    } else {
        0
    }
}

proof fn lemma_name_run_bound(s: Seq<char>)
    ensures
        spec_name_run(s) <= s.len(),
    decreases s.len(),
{
    if s.len() > 0 && spec_name_char(s[0]) {
        lemma_name_run_bound(s.drop_first());
    }
}

/// Substitution of `${name}` placeholders: a placeholder is `${`, one or
/// more name characters, then `}`; anything else passes through literally.
/// The result is the substituted text, or the first placeholder name that
/// the property table does not declare.
pub open spec fn spec_subst(s: Seq<char>, props: Seq<(Seq<char>, Seq<char>)>) -> Result<
    Seq<char>,
    Seq<char>,
>
    decreases s.len(),
{
    if s.len() == 0 {
        Result::Ok(Seq::<char>::empty())
    } else {
        let m = spec_name_run(s.skip(2)) as int;
        if s[0] == '$' && s.len() >= 2 && s[1] == '{' && m > 0 && 2 + m < s.len() && s[2 + m]
            == '}' {
            let name = s.subrange(2, 2 + m);
            match spec_lookup(props, name) {
                Option::None => Result::Err(name),
                Option::Some(v) => match spec_subst(s.skip(3 + m), props) {
                    Result::Ok(rest) => Result::Ok(v + rest),
                    Result::Err(e) => Result::Err(e),
                },
            }
        } else {
            match spec_subst(s.drop_first(), props) {
                Result::Ok(rest) => Result::Ok(seq![s[0]] + rest),
                Result::Err(e) => Result::Err(e),
            }
        }
    }
}

fn name_run_from(s: &str, i: usize) -> (r: usize)
    requires
        i <= s@.len(),
    ensures
        r == spec_name_run(s@.skip(i as int)),
        i + r <= s@.len(),
    decreases s@.len() - i,
{
    let n = s.unicode_len();
    if i == n {
        assert(s@.skip(i as int) =~= Seq::<char>::empty());
        0
    } else {
        assert(s@.skip(i as int)[0] == s@[i as int]);
        assert(s@.skip(i as int).drop_first() =~= s@.skip(i as int + 1));
        let c = s.get_char(i);
        let u = c as u32;
        let is_name = (97 <= u && u <= 122) || (65 <= u && u <= 90) || (48 <= u && u <= 57) || c
            == '_' || c == '.';
        if is_name {
            let rest = name_run_from(s, i + 1);
            rest + 1
        } else {
            0
        }
    }
}

fn lookup_prop_from(props: &Vec<(String, String)>, k: &str, i: usize) -> (r: Option<String>)
    requires
        i <= props@.len(),
    ensures
        (match r {
            Option::Some(v) => spec_lookup(props_v(props@).skip(i as int), k@) == Option::Some(v@),
            Option::None => spec_lookup(props_v(props@).skip(i as int), k@) is None,
        }),
    decreases props@.len() - i,
{
    if i == props.len() {
        assert(props_v(props@).skip(i as int) =~= Seq::<(Seq<char>, Seq<char>)>::empty());
        Option::None
    } else {
        assert(props_v(props@).skip(i as int)[0] == props_v(props@)[i as int]);
        assert(props_v(props@).skip(i as int).drop_first() =~= props_v(props@).skip(i as int + 1));
        if str_eq(props[i].0.as_str(), k) {
            Option::Some(props[i].1.clone())
        } else {
            lookup_prop_from(props, k, i + 1)
        }
    }
}

fn subst_from(s: &str, props: &Vec<(String, String)>, i: usize) -> (r: Result<String, LaunchError>)
    requires
        i <= s@.len(),
    ensures
        (match r {
            Result::Ok(out) => spec_subst(s@.skip(i as int), props_v(props@)) == Result::Ok::<
                Seq<char>,
                Seq<char>,
            >(out@),
            Result::Err(e) => e matches LaunchError::UnknownVariable { name } && spec_subst(
                s@.skip(i as int),
                props_v(props@),
            ) == Result::Err::<Seq<char>, Seq<char>>(name@),
        }),
    decreases s@.len() - i,
{
    let n = s.unicode_len();
    let ghost tail = s@.skip(i as int);
    if i == n {
        assert(tail =~= Seq::<char>::empty());
        return Ok(String::new());
    }
    assert(tail[0] == s@[i as int]);
    assert(tail.drop_first() =~= s@.skip(i as int + 1));
    let c = s.get_char(i);
    if c == '$' && i + 1 < n && s.get_char(i + 1) == '{' {
        assert(tail.len() >= 2 && tail[1] == s@[i as int + 1]) by {
            assert(tail[1] == s@[i as int + 1]);
        };
        let m = name_run_from(s, i + 2);
        assert(tail.skip(2) =~= s@.skip(i as int + 2));
        if m > 0 && i + 2 + m < n && s.get_char(i + 2 + m) == '}' {
            assert(tail[2 + m] == s@[i as int + 2 + m]);
            let name: String = s.substring_char(i + 2, i + 2 + m).to_owned();
            assert(name@ =~= tail.subrange(2, 2 + m));
            match lookup_prop_from(props, name.as_str(), 0) {
                Option::None => {
                    assert(props_v(props@).skip(0) =~= props_v(props@));
                    Err(LaunchError::UnknownVariable { name })
                },
                Option::Some(v) => {
                    assert(props_v(props@).skip(0) =~= props_v(props@));
                    match subst_from(s, props, i + 3 + m) {
                        Err(e) => {
                            assert(s@.skip(i as int + 3 + m as int) =~= tail.skip(3 + m));
                            Err(e)
                        },
                        Ok(rest) => {
                            assert(s@.skip(i as int + 3 + m as int) =~= tail.skip(3 + m));
                            let mut out = v;
                            out.append(rest.as_str());
                            Ok(out)
                        },
                    }
                },
            }
        } else {
            // Not a well-formed placeholder: the `$` passes through.
            proof {
                lemma_name_run_bound(tail.skip(2));
            }
            match subst_from(s, props, i + 1) {
                Err(e) => Err(e),
                Ok(rest) => {
                    let mut out = String::new();
                    push_char(&mut out, c);
                    out.append(rest.as_str());
                    assert(out@ =~= seq![tail[0]] + rest@);
                    Ok(out)
                },
            }
        }
    } else {
        proof {
            if c == '$' && tail.len() >= 2 && tail[1] == '{' {
                assert(i + 1 < n && s@[i as int + 1] == '{');
            }
        }
        match subst_from(s, props, i + 1) {
            Err(e) => Err(e),
            Ok(rest) => {
                let mut out = String::new();
                push_char(&mut out, c);
                out.append(rest.as_str());
                assert(out@ =~= seq![tail[0]] + rest@);
                Ok(out)
            },
        }
    }
}

/// Substitutes every `${name}` placeholder in `s` from the property table.
/// A placeholder that names an undeclared property is an error carrying
/// that name, never text passed through silently.
pub fn substitute(s: &str, props: &Vec<(String, String)>) -> (r: Result<String, LaunchError>)
    ensures
        (match r {
            Result::Ok(out) => spec_subst(s@, props_v(props@)) == Result::Ok::<Seq<char>, Seq<char>>(
                out@,
            ),
            Result::Err(e) => e matches LaunchError::UnknownVariable { name } && spec_subst(
                s@,
                props_v(props@),
            ) == Result::Err::<Seq<char>, Seq<char>>(name@),
        }),
{
    let r = subst_from(s, props, 0);
    assert(s@.skip(0) =~= s@);
    r
}

/// Substitution over a whole argument list: the first undeclared
/// placeholder name wins.
pub open spec fn spec_subst_all(args: Seq<Seq<char>>, props: Seq<(Seq<char>, Seq<char>)>) -> Result<
    Seq<Seq<char>>,
    Seq<char>,
>
    decreases args.len(),
{
    if args.len() == 0 {
        Result::Ok(Seq::<Seq<char>>::empty())
    } else {
        match spec_subst(args[0], props) {
            Result::Err(e) => Result::Err(e),
            Result::Ok(first) => match spec_subst_all(args.drop_first(), props) {
                Result::Err(e) => Result::Err(e),
                Result::Ok(rest) => Result::Ok(seq![first] + rest),
            },
        }
    }
}

fn substitute_all_from(args: &Vec<String>, props: &Vec<(String, String)>, i: usize) -> (r: Result<
    Vec<String>,
    LaunchError,
>)
    requires
        i <= args@.len(),
    ensures
        (match r {
            Result::Ok(out) => spec_subst_all(strs(args@).skip(i as int), props_v(props@))
                == Result::Ok::<Seq<Seq<char>>, Seq<char>>(strs(out@)),
            Result::Err(e) => e matches LaunchError::UnknownVariable { name } && spec_subst_all(
                strs(args@).skip(i as int),
                props_v(props@),
            ) == Result::Err::<Seq<Seq<char>>, Seq<char>>(name@),
        }),
    decreases args@.len() - i,
{
    if i == args.len() {
        assert(strs(args@).skip(i as int) =~= Seq::<Seq<char>>::empty());
        let out: Vec<String> = Vec::new();
        assert(strs(out@) =~= Seq::<Seq<char>>::empty());
        return Ok(out);
    }
    assert(strs(args@).skip(i as int)[0] == args@[i as int]@);
    assert(strs(args@).skip(i as int).drop_first() =~= strs(args@).skip(i as int + 1));
    let first = match substitute(args[i].as_str(), props) {
        Err(e) => {
            return Err(e);
        },
        Ok(f) => f,
    };
    match substitute_all_from(args, props, i + 1) {
        Err(e) => Err(e),
        Ok(mut rest) => {
            let ghost before = rest@;
            rest.insert(0, first);
            assert(strs(rest@) =~~= seq![first@] + strs(before));
            Ok(rest)
        },
    }
}

/// Applies `substitute` to every argument.
pub fn substitute_all(args: &Vec<String>, props: &Vec<(String, String)>) -> (r: Result<
    Vec<String>,
    LaunchError,
>)
    ensures
        (match r {
            Result::Ok(out) => spec_subst_all(strs(args@), props_v(props@)) == Result::Ok::<
                Seq<Seq<char>>,
                Seq<char>,
            >(strs(out@)),
            Result::Err(e) => e matches LaunchError::UnknownVariable { name } && spec_subst_all(
                strs(args@),
                props_v(props@),
            ) == Result::Err::<Seq<Seq<char>>, Seq<char>>(name@),
        }),
{
    let r = substitute_all_from(args, props, 0);
    assert(strs(args@).skip(0) =~= strs(args@));
    r
}

/// The JVM arguments: the fixed locale flag and native library path, then
/// `-Xms`/`-Xmx` when a RAM allocation is configured, then the instance's
/// own JVM arguments.
pub open spec fn spec_jvm_args(launch: InstanceLaunchConfig, natives_path: Seq<char>) -> Seq<
    Seq<char>,
> {
    seq!["-Duser.language=en"@, "-Djava.library.path="@ + natives_path] + (match launch.allocation {
        Option::Some(a) => seq![
            "-Xms"@ + spec_dec(a.min as nat) + "M"@,
            "-Xmx"@ + spec_dec(a.max as nat) + "M"@,
        ],
        Option::None => Seq::<Seq<char>>::empty(),
    }) + (match launch.jvm_args {
        Option::Some(v) => strs(v@),
        Option::None => Seq::<Seq<char>>::empty(),
    })
}

/// Builds the JVM argument list for an instance.
pub fn build_jvm_args(launch: &InstanceLaunchConfig, natives_path: &str) -> (r: Vec<String>)
    ensures
        strs(r@) == spec_jvm_args(*launch, natives_path@),
{
    let mut out: Vec<String> = Vec::new();
    out.push("-Duser.language=en".to_owned());
    let mut lib: String = "-Djava.library.path=".to_owned();
    lib.append(natives_path);
    out.push(lib);
    match &launch.allocation {
        Option::Some(a) => {
            let mut xms: String = "-Xms".to_owned();
            xms.append(u32_to_dec(a.min).as_str());
            xms.append("M");
            out.push(xms);
            let mut xmx: String = "-Xmx".to_owned();
            xmx.append(u32_to_dec(a.max).as_str());
            xmx.append("M");
            out.push(xmx);
        },
        Option::None => {},
    }
    match &launch.jvm_args {
        Option::Some(v) => {
            let ghost base = out@;
            let mut extra = dup_strings(v);
            out.append(&mut extra);
            assert(strs(out@) =~~= strs(base) + strs(v@));
        },
        Option::None => {},
    }
    assert(strs(out@) =~~= spec_jvm_args(*launch, natives_path@));
    out
}

/// A classpath joined with the platform's separator.
pub open spec fn spec_join(parts: Seq<Seq<char>>, sep: char) -> Seq<char>
    decreases parts.len(),
{
    if parts.len() == 0 {
        Seq::<char>::empty()
    } else if parts.len() == 1 {
        parts[0]
    } else {
        parts[0] + seq![sep] + spec_join(parts.drop_first(), sep)
    }
}

/// Joins classpath entries with the separator the platform uses.
pub fn generate_classpath(classpath: &Vec<String>, separator: char) -> (r: String)
    ensures
        r@ == spec_join(strs(classpath@), separator),
{
    let r = generate_classpath_from(classpath, separator, 0);
    assert(strs(classpath@).skip(0) =~~= strs(classpath@));
    r
}

fn generate_classpath_from(classpath: &Vec<String>, separator: char, i: usize) -> (r: String)
    requires
        i <= classpath@.len(),
    ensures
        r@ =~= spec_join(strs(classpath@).skip(i as int), separator),
    decreases classpath@.len() - i,
{
    if i == classpath.len() {
        assert(strs(classpath@).skip(i as int) =~= Seq::<Seq<char>>::empty());
        String::new()
    } else if i + 1 == classpath.len() {
        assert(strs(classpath@).skip(i as int) =~= seq![classpath@[i as int]@]);
        classpath[i].clone()
    } else {
        assert(strs(classpath@).skip(i as int)[0] == classpath@[i as int]@);
        assert(strs(classpath@).skip(i as int).drop_first() =~= strs(classpath@).skip(
            i as int + 1,
        ));
        let rest = generate_classpath_from(classpath, separator, i + 1);
        let mut out = classpath[i].clone();
        push_char(&mut out, separator);
        out.append(rest.as_str());
        out
    }
}

/// The property table handed to placeholder substitution, in declaration
/// order: the identity, the fixed user type, the game directory, then the
/// optional game version, world, and asset locations.
pub open spec fn spec_props(
    username: Seq<char>,
    uuid: Seq<char>,
    token: Seq<char>,
    game_dir: Seq<char>,
    mc_version: Option<Seq<char>>,
    world: Option<Seq<char>>,
    assets: Option<(Seq<char>, Seq<char>)>,
    unpack: Option<Seq<char>>,
) -> Seq<(Seq<char>, Seq<char>)> {
    seq![
        ("user.name"@, username),
        ("user.uuid"@, uuid),
        ("user.token"@, token),
        ("user.type"@, "msa"@),
        ("instance.game_dir"@, game_dir),
    ] + (match mc_version {
        Option::Some(v) => seq![("instance.minecraft_version"@, v)],
        Option::None => Seq::<(Seq<char>, Seq<char>)>::empty(),
    }) + (match world {
        Option::Some(w) => seq![("launch.world"@, w)],
        Option::None => Seq::<(Seq<char>, Seq<char>)>::empty(),
    }) + (match assets {
        Option::Some(a) => seq![("instance.assets_dir"@, a.0), ("instance.assets_index_name"@, a.1)],
        Option::None => Seq::<(Seq<char>, Seq<char>)>::empty(),
    }) + (match unpack {
        Option::Some(u) => seq![("instance.virtual_assets_dir"@, u)],
        Option::None => Seq::<(Seq<char>, Seq<char>)>::empty(),
    })
}

/// Builds the property table.
pub fn build_props(
    username: String,
    uuid: String,
    token: String,
    game_dir: String,
    mc_version: Option<String>,
    world: Option<String>,
    assets: Option<(String, String)>,
    unpack: Option<String>,
) -> (r: Vec<(String, String)>)
    ensures
        props_v(r@) == spec_props(
            username@,
            uuid@,
            token@,
            game_dir@,
            (match mc_version {
                Option::Some(v) => Option::Some(v@),
                Option::None => Option::None,
            }),
            (match world {
                Option::Some(w) => Option::Some(w@),
                Option::None => Option::None,
            }),
            (match assets {
                Option::Some(a) => Option::Some((a.0@, a.1@)),
                Option::None => Option::None,
            }),
            (match unpack {
                Option::Some(u) => Option::Some(u@),
                Option::None => Option::None,
            }),
        ),
{
    let mut props: Vec<(String, String)> = Vec::new();
    props.push(("user.name".to_owned(), username));
    props.push(("user.uuid".to_owned(), uuid));
    props.push(("user.token".to_owned(), token));
    props.push(("user.type".to_owned(), "msa".to_owned()));
    props.push(("instance.game_dir".to_owned(), game_dir));
    match mc_version {
        Option::Some(v) => {
            props.push(("instance.minecraft_version".to_owned(), v));
        },
        Option::None => {},
    }
    match world {
        Option::Some(w) => {
            props.push(("launch.world".to_owned(), w));
        },
        Option::None => {},
    }
    match assets {
        Option::Some(a) => {
            props.push(("instance.assets_dir".to_owned(), a.0));
            props.push(("instance.assets_index_name".to_owned(), a.1));
        },
        Option::None => {},
    }
    match unpack {
        Option::Some(u) => {
            props.push(("instance.virtual_assets_dir".to_owned(), u));
        },
        Option::None => {},
    }
    assert(props_v(props@) =~= spec_props(
        username@,
        uuid@,
        token@,
        game_dir@,
        (match mc_version {
            Option::Some(v) => Option::Some(v@),
            Option::None => Option::None,
        }),
        (match world {
            Option::Some(w) => Option::Some(w@),
            Option::None => Option::None,
        }),
        (match assets {
            Option::Some(a) => Option::Some((a.0@, a.1@)),
            Option::None => Option::None,
        }),
        (match unpack {
            Option::Some(u) => Option::Some(u@),
            Option::None => Option::None,
        }),
    ));
    props
}

/// The capability flag required to launch directly into a world.
pub fn quick_play_world_trait() -> (r: String)
    ensures
        r@ == "SupportsQuickPlayWorld"@,
{
    "SupportsQuickPlayWorld".to_owned()
}

/// The java binary used for the launch: the instance's override, or `java`.
pub open spec fn spec_java_path(launch: InstanceLaunchConfig) -> Seq<char> {
    match launch.javapath {
        Option::Some(p) => p@,
        Option::None => "java"@,
    }
}

/// Composes the launch from a validated merge and resolved files: the
/// runtime jar and classpath paths come from artifact resolution, the
/// unpack directory from the downloaded asset index. Validation, argument
/// filtering and placeholder substitution happen here; nothing is read or
/// written.
pub fn prepare_launch(
    config: &crate::config::Config,
    instance: &Instance,
    components: &MergedComponents,
    launch_options: &LaunchOptions,
    game_jar_path: String,
    classpath_paths: &Vec<String>,
    unpack_dir: &Option<String>,
) -> (r: Result<PreparedLaunch, LaunchError>)
    requires
        components.assets is None ==> unpack_dir is None,
    ensures
        (if launch_options.spec_world() is Some && !strs(components.traits@).contains(
            "SupportsQuickPlayWorld"@,
        ) {
            r matches Err(e) && e matches LaunchError::UnsupportedFeature { name } && name@
                == "Launching into world"@
        } else {
            match spec_subst_all(
                spec_filtered_args(
                    components.arguments@,
                    launch_options.spec_account() is Some,
                    launch_options.spec_world() is Some,
                ),
                spec_props(
                    (match launch_options.spec_account() {
                        Option::Some(a) => a.username@,
                        Option::None => "Player"@,
                    }),
                    (match launch_options.spec_account() {
                        Option::Some(a) => a.uuid@,
                        Option::None => "00000000-0000-0000-0000-000000000000"@,
                    }),
                    (match launch_options.spec_account() {
                        Option::Some(a) => a.token@,
                        Option::None => ""@,
                    }),
                    instance.path@ + "/.minecraft"@,
                    crate::instance::spec_component_version(
                        instance.config.components@,
                        "net.minecraft"@,
                    ),
                    (match launch_options.spec_world() {
                        Option::Some(w) => Option::Some(w@),
                        Option::None => Option::None,
                    }),
                    (match components.assets {
                        Option::Some(a) => Option::Some(
                            (config.spec_base_path() + "/"@ + config.spec_assets_dir(), a.id@),
                        ),
                        Option::None => Option::None,
                    }),
                    (match unpack_dir {
                        Option::Some(u) => Option::Some(u@),
                        Option::None => Option::None,
                    }),
                ),
            ) {
                Result::Ok(final_args) => r matches Ok(p) && strs(p.args@) == final_args
                    && p.working_directory@ == instance.path@ + "/.minecraft"@ && p.java_path@
                    == spec_java_path(instance.config.launch) && strs(p.jvm_args@)
                    == spec_jvm_args(instance.config.launch, instance.path@ + "/natives"@)
                    && strs(p.classpath@) == seq![game_jar_path@] + strs(classpath_paths@)
                    && p.main_class@ == components.main_class@,
                Result::Err(bad) => r matches Err(e)
                    && e matches LaunchError::UnknownVariable { name } && name@ == bad,
            }
        }),
{
    match validate_launch_options(components, launch_options) {
        Err(e) => {
            return Err(e);
        },
        Ok(()) => {},
    }
    let game_dir = instance.get_game_dir();
    let mut natives_path = instance.path.clone();
    natives_path.append("/natives");
    let jvm_args = build_jvm_args(&instance.config.launch, natives_path.as_str());
    let (username, uuid, token) = launch_options.account_or_default();
    let mc_version = instance.get_component_version("net.minecraft");
    let assets_pair: Option<(String, String)> = match &components.assets {
        Option::Some(a) => Option::Some((config.get_assets_path(), a.id.clone())),
        Option::None => Option::None,
    };
    let world: Option<String> = match &launch_options.world {
        Option::Some(w) => Option::Some(w.clone()),
        Option::None => Option::None,
    };
    let unpack: Option<String> = match unpack_dir {
        Option::Some(u) => Option::Some(u.clone()),
        Option::None => Option::None,
    };
    let has_account = launch_options.account.is_some();
    let has_world = launch_options.world.is_some();
    let props = build_props(
        username,
        uuid,
        token,
        game_dir.clone(),
        mc_version,
        world,
        assets_pair,
        unpack,
    );
    let filtered = filter_arguments(&components.arguments, has_account, has_world);
    let args = match substitute_all(&filtered, &props) {
        Err(e) => {
            return Err(e);
        },
        Ok(a) => a,
    };
    let mut classpath: Vec<String> = Vec::new();
    classpath.push(game_jar_path);
    let mut rest = dup_strings(classpath_paths);
    classpath.append(&mut rest);
    assert(strs(classpath@) =~~= seq![classpath@[0]@] + strs(classpath_paths@));
    let java_path: String = match &instance.config.launch.javapath {
        Option::Some(p) => p.clone(),
        Option::None => "java".to_owned(),
    };
    Ok(
        PreparedLaunch {
            working_directory: game_dir,
            java_path,
            jvm_args,
            classpath,
            main_class: components.main_class.clone(),
            args,
        },
    )
}

/// Checks the requested options against the merged traits, before any
/// download or extraction happens: launching into a world requires the
/// quick-play-world capability.
pub fn validate_launch_options(components: &MergedComponents, options: &LaunchOptions) -> (r:
    Result<(), LaunchError>)
    ensures
        r is Ok <==> (options.spec_world() is None || strs(components.traits@).contains(
            "SupportsQuickPlayWorld"@,
        )),
        r is Err ==> (r matches Err(e) && e matches LaunchError::UnsupportedFeature { name }
            && name@ == "Launching into world"@),
{
    if options.has_world() && !components.has_trait("SupportsQuickPlayWorld") {
        Err(LaunchError::UnsupportedFeature { name: "Launching into world".to_owned() })
    } else {
        Ok(())
    }
}

} // verus!
