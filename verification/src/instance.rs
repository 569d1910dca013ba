//! Instances: a named, on-disk game configuration built from an ordered
//! component list and launch overrides. Reading and writing instance
//! directories is I/O and lives with the caller; the configuration values
//! and their construction rules are here.

use vstd::prelude::*;
use vstd::string::StrSliceExecFns;

use crate::strutil::str_eq;

verus! {

/// The mod loaders an instance can be created with.
#[derive(Debug, Clone, Copy, PartialEq, Eq, Structural)]
pub enum Modloader {
    Quilt,
    Fabric,
    Forge,
    Vanilla,
}

/// A pointer into the metadata catalog: a component and its version.
#[derive(Debug, Clone)]
pub struct Component {
    pub id: String,
    pub version: String,
}

impl Component {
    /// An equal copy, usable in verified code.
    pub fn dup(&self) -> (r: Component)
        ensures
            r == *self,
    {
        Component { id: self.id.clone(), version: self.version.clone() }
    }
}

/// A RAM allocation override, in mebibytes.
#[derive(Debug, Clone)]
pub struct RamAllocation {
    pub min: u32,
    pub max: u32,
}

/// Per-instance launch overrides; absent options fall back to launcher
/// settings.
#[derive(Debug)]
pub struct InstanceLaunchConfig {
    pub args: Option<Vec<String>>,
    pub jvm_args: Option<Vec<String>>,
    pub prelaunch_command: Option<String>,
    pub postlaunch_command: Option<String>,
    pub allocation: Option<RamAllocation>,
    pub javapath: Option<String>,
}

impl Default for InstanceLaunchConfig {
    /// No overrides at all.
    fn default() -> (r: Self)
        ensures
            r.args is None,
            r.jvm_args is None,
            r.prelaunch_command is None,
            r.postlaunch_command is None,
            r.allocation is None,
            r.javapath is None,
    {
        InstanceLaunchConfig {
            args: Option::None,
            jvm_args: Option::None,
            prelaunch_command: Option::None,
            postlaunch_command: Option::None,
            allocation: Option::None,
            javapath: Option::None,
        }
    }
}

/// The persisted configuration of an instance.
#[derive(Debug)]
pub struct InstanceConfig {
    pub name: String,
    pub components: Vec<Component>,
    pub launch: InstanceLaunchConfig,
}

/// An instance: where it lives, and its configuration.
#[derive(Debug)]
pub struct Instance {
    pub path: String,
    pub config: InstanceConfig,
}

/// The version of the first component with the given id, in list order.
pub open spec fn spec_component_version(comps: Seq<Component>, id: Seq<char>) -> Option<Seq<char>>
    decreases comps.len(),
{
    if comps.len() == 0 {
        Option::None
    } else if comps[0].id@ == id {
        Option::Some(comps[0].version@)
    } else {
        spec_component_version(comps.drop_first(), id)
    }
}

fn component_version_from(comps: &Vec<Component>, id: &str, i: usize) -> (r: Option<String>)
    requires
        i <= comps@.len(),
    ensures
        (match r {
            Option::Some(v) => spec_component_version(comps@.skip(i as int), id@)
                == Option::Some(v@),
            Option::None => spec_component_version(comps@.skip(i as int), id@) is None,
        }),
    decreases comps@.len() - i,
{
    if i == comps.len() {
        assert(comps@.skip(i as int) =~= Seq::<Component>::empty());
        Option::None
    } else {
        assert(comps@.skip(i as int)[0] == comps@[i as int]);
        assert(comps@.skip(i as int).drop_first() =~= comps@.skip(i as int + 1));
        if str_eq(comps[i].id.as_str(), id) {
            Option::Some(comps[i].version.clone())
        } else {
            component_version_from(comps, id, i + 1)
        }
    }
}

impl Instance {
    /// The game directory of the instance: `.minecraft` under its path.
    pub fn get_game_dir(&self) -> (r: String)
        ensures
            r@ == self.path@ + "/.minecraft"@,
    {
        let mut r = self.path.clone();
        r.append("/.minecraft");
        r
    }

    /// The configured version of the named component, if the instance has
    /// it: the first matching component wins.
    pub fn get_component_version(&self, id: &str) -> (r: Option<String>)
        ensures
            (match r {
                Option::Some(v) => spec_component_version(self.config.components@, id@)
                    == Option::Some(v@),
                Option::None => spec_component_version(self.config.components@, id@) is None,
            }),
    {
        let r = component_version_from(&self.config.components, id, 0);
        assert(self.config.components@.skip(0) =~= self.config.components@);
        r
    }
}

/// The catalog id of the loader component for each non-vanilla loader.
pub open spec fn spec_modloader_id(m: Modloader) -> Seq<char> {
    match m {
        Modloader::Fabric => "net.fabricmc.fabric-loader"@,
        Modloader::Quilt => "org.quiltmc.quilt-loader"@,
        Modloader::Forge => "net.minecraftforge.forge"@,
        Modloader::Vanilla => Seq::<char>::empty(),
    }
}

/// Builds the configuration of a fresh instance: the base game component,
/// preceded by the chosen loader's component when one was chosen. A
/// non-vanilla loader must come with a version.
pub fn new_instance_config(
    name: String,
    mc_version: String,
    launch: InstanceLaunchConfig,
    modloader: Modloader,
    modloader_version: Option<String>,
) -> (r: InstanceConfig)
    requires
        modloader != Modloader::Vanilla ==> modloader_version is Some,
    ensures
        r.name@ == name@,
        r.launch == launch,
        modloader == Modloader::Vanilla ==> (r.components@.len() == 1),
        modloader != Modloader::Vanilla ==> (r.components@.len() == 2
            && r.components@[0].id@ == spec_modloader_id(modloader) && Option::Some(
            r.components@[0].version@,
        ) == (match modloader_version {
            Option::Some(v) => Option::Some(v@),
            Option::None => Option::None,
        })),
        r.components@.last().id@ == "net.minecraft"@,
        r.components@.last().version@ == mc_version@,
{
    let base = Component { id: "net.minecraft".to_owned(), version: mc_version };
    let mut components: Vec<Component> = Vec::new();
    match modloader {
        Modloader::Vanilla => {},
        Modloader::Fabric => {
            components.push(
                Component {
                    id: "net.fabricmc.fabric-loader".to_owned(),
                    version: unwrap_version(modloader_version),
                },
            );
        },
        Modloader::Quilt => {
            components.push(
                Component {
                    id: "org.quiltmc.quilt-loader".to_owned(),
                    version: unwrap_version(modloader_version),
                },
            );
        },
        Modloader::Forge => {
            components.push(
                Component {
                    id: "net.minecraftforge.forge".to_owned(),
                    version: unwrap_version(modloader_version),
                },
            );
        },
    }
    components.push(base);
    InstanceConfig { name, components, launch }
}

fn unwrap_version(v: Option<String>) -> (r: String)
    requires
        v is Some,
    ensures
        Option::Some(r) == v,
{
    match v {
        Option::Some(s) => s,
        Option::None => vstd::pervasive::unreached(),
    }
}

} // verus!
