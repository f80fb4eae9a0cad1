//! The package manager: runs operations against the package database and
//! answers each with a text report or an error.

use vstd::prelude::*;
use vstd::string::StringExecFns;
use crate::package::{PackageError, PackageManagerType, PackageOperation, PackageResult, ErrorSpec};
use crate::package::types::{PackageInfo, PackageStatus};
use crate::package::database::{PackageCache, PackageDatabase, search_spec};
use crate::package::compression::gzip::decimal;
use crate::text::append_str;

verus! {

/// `n` written in decimal.
pub fn decimal_u64(n: u64) -> (r: String)
    ensures
        r@ == decimal(n as nat),
    decreases n,
{
    if n < 10 {
        let mut s = String::new();
        crate::package::text::push_char(&mut s, ((n as u8) + 48) as char);
        s
    } else {
        let mut s = decimal_u64(n / 10);
        crate::package::text::push_char(&mut s, (((n % 10) as u8) + 48) as char);
        s
    }
}

/// The name under which a status is shown.
pub open spec fn status_label(s: PackageStatus) -> Seq<char> {
    match s {
        PackageStatus::Installed => "Installed"@,
        PackageStatus::PartiallyInstalled => "PartiallyInstalled"@,
        PackageStatus::MarkedForRemoval => "MarkedForRemoval"@,
        PackageStatus::ConfigPending => "ConfigPending"@,
    }
}

/// The name under which a status is shown.
pub fn status_name(s: PackageStatus) -> (r: &'static str)
    ensures
        r@ == status_label(s),
{
    match s {
        PackageStatus::Installed => "Installed",
        PackageStatus::PartiallyInstalled => "PartiallyInstalled",
        PackageStatus::MarkedForRemoval => "MarkedForRemoval",
        PackageStatus::ConfigPending => "ConfigPending",
    }
}

/// The line of a search result.
pub open spec fn search_line(p: PackageInfo) -> Seq<char> {
    "  "@ + p.metadata.name@ + " "@ + p.metadata.version@ + " - "@ + p.metadata.description@ + "\n"@
}

/// The line of a listed package.
pub open spec fn list_line(p: PackageInfo) -> Seq<char> {
    "  "@ + p.metadata.name@ + " "@ + p.metadata.version@ + " ["@ + status_label(p.status) + "]\n"@
}

/// The lines of `ps` made by `line`, one after another.
pub open spec fn joined(ps: Seq<PackageInfo>, line: spec_fn(PackageInfo) -> Seq<char>) -> Seq<char>
    decreases ps.len(),
{
    if ps.len() == 0 {
        Seq::empty()
    } else {
        joined(ps.drop_last(), line) + line(ps.last())
    }
}

/// The dependency lines of a package.
pub open spec fn dependency_lines(deps: Seq<String>) -> Seq<char>
    decreases deps.len(),
{
    if deps.len() == 0 {
        Seq::empty()
    } else {
        dependency_lines(deps.drop_last()) + "  - "@ + deps.last()@ + "\n"@
    }
}

/// The report on a package.
pub open spec fn info_text(p: PackageInfo) -> Seq<char> {
    let base = "Package: "@ + p.metadata.name@ + "\n"@ + "Version: "@ + p.metadata.version@ + "\n"@
        + "Architecture: "@ + p.metadata.architecture@ + "\n"@ + "Description: "@ + p.metadata.description@
        + "\n"@ + "Status: "@ + status_label(p.status) + "\n"@ + "Installed files: "@ + decimal(
        p.installed_files@.len(),
    ) + "\n"@;
    let with_maintainer = match p.metadata.maintainer {
        Some(m) => base + "Maintainer: "@ + m@ + "\n"@,
        None => base,
    };
    if p.metadata.dependencies@.len() > 0 {
        with_maintainer + "Dependencies:\n"@ + dependency_lines(p.metadata.dependencies@)
    } else {
        with_maintainer
    }
}

/// What running `operation` on `name` does: `pre` is the manager before,
/// `post` after, `r` the answer.
pub open spec fn operation_done(
    pre: PackageManager,
    post: PackageManager,
    operation: PackageOperation,
    name: Seq<char>,
    r: PackageResult<String>,
) -> bool {
    let db = pre.database_spec().packages_spec();
    let n = name;
    match operation {
        PackageOperation::Install => post.database_spec() == pre.database_spec() && (
        if db.dom().contains(n) {
            r matches Err(e) && e@ == ErrorSpec::InvalidOperation(
                "Package "@ + n + " is already installed"@,
            )
        } else {
            r matches Err(e) && e@ == ErrorSpec::NotImplemented(
                "Package installation requires network stack and filesystem support. See docs/LINUX_APP_SUPPORT.md for implementation requirements."@,
            )
        }),
        PackageOperation::Remove => post.database_spec().packages_spec() == db.remove(n) && (
        if db.dom().contains(n) {
            r matches Ok(s) && s@ == "Package "@ + n + " marked for removal (experimental)"@
        } else {
            r matches Err(e) && e@ == ErrorSpec::NotFound("Package "@ + n + " not found"@)
        }),
        PackageOperation::Update => post.database_spec() == pre.database_spec() && (
        r matches Err(e) && e@ == ErrorSpec::NotImplemented(
            "Package database update requires network and repository API support"@,
        )),
        PackageOperation::Upgrade => post.database_spec() == pre.database_spec() && (
        r matches Err(e) && e@ == ErrorSpec::NotImplemented(
            "Package upgrade not yet implemented for "@ + n,
        )),
        PackageOperation::Search => {
            let found = search_spec(
                pre.database_spec().name_order().map_values(|k: Seq<char>| db[k]),
                n,
            );
            &&& post.database_spec() == pre.database_spec()
            &&& found.len() == 0 ==> (r matches Ok(s) && s@ == "No packages found matching '"@ + n
                + "'"@)
            &&& found.len() > 0 ==> (r matches Ok(s) && s@ == "Found "@ + decimal(found.len())
                + " package(s):\n"@ + joined(found, |p: PackageInfo| search_line(p)))
        },
        PackageOperation::Info => post.database_spec() == pre.database_spec() && (
        if db.dom().contains(n) {
            r matches Ok(s) && s@ == info_text(db[n])
        } else {
            r matches Err(e) && e@ == ErrorSpec::NotFound("Package "@ + n + " not found"@)
        }),
        PackageOperation::List => {
            let all = pre.database_spec().name_order().map_values(|k: Seq<char>| db[k]);
            &&& post.database_spec() == pre.database_spec()
            &&& all.len() == 0 ==> (r matches Ok(s) && s@ == "No packages installed"@)
            &&& all.len() > 0 ==> (r matches Ok(s) && s@ == "Installed packages ("@ + decimal(
                all.len(),
            ) + "):\n"@ + joined(all, |p: PackageInfo| list_line(p)))
        },
    }
}

/// The package manager.
pub struct PackageManager {
    database: PackageDatabase,
    cache: PackageCache,
    manager_type: PackageManagerType,
}

/// Appends the lines made by `line` for `ps`.
fn append_lines(out: &mut String, ps: &Vec<&PackageInfo>, listing: bool)
    ensures
        final(out)@ == old(out)@ + joined(
            ps@.map_values(|p: &PackageInfo| *p),
            if listing {
                |p: PackageInfo| list_line(p)
            } else {
                |p: PackageInfo| search_line(p)
            },
        ),
{
    let ghost line = if listing {
        |p: PackageInfo| list_line(p)
    } else {
        |p: PackageInfo| search_line(p)
    };
    let ghost src = ps@.map_values(|p: &PackageInfo| *p);
    let ghost start = out@;
    let mut i: usize = 0;
    while i < ps.len()
        invariant
            i <= ps@.len(),
            src == ps@.map_values(|p: &PackageInfo| *p),
            line == (if listing {
                |p: PackageInfo| list_line(p)
            } else {
                |p: PackageInfo| search_line(p)
            }),
            out@ == start + joined(src.take(i as int), line),
        decreases ps@.len() - i,
    {
        let p = ps[i];
        append_str(out, "  ");
        append_str(out, p.metadata.name.as_str());
        append_str(out, " ");
        append_str(out, p.metadata.version.as_str());
        if listing {
            append_str(out, " [");
            append_str(out, status_name(p.status));
            append_str(out, "]\n");
        } else {
            append_str(out, " - ");
            append_str(out, p.metadata.description.as_str());
            append_str(out, "\n");
        }
        assert(src.take(i + 1).drop_last() =~= src.take(i as int));
        assert(src.take(i + 1).last() == *p);
        assert(out@ =~= start + joined(src.take(i + 1), line));
        i = i + 1;
    }
    assert(src.take(ps@.len() as int) =~= src);
}

impl PackageManager {
    /// The package database.
    pub closed spec fn database_spec(&self) -> &PackageDatabase {
        &self.database
    }

    /// The back end.
    pub closed spec fn type_spec(&self) -> PackageManagerType {
        self.manager_type
    }

    /// The internal state is well formed.
    pub closed spec fn wf(&self) -> bool {
        self.database.wf() && self.cache.wf()
    }

    /// A manager of the given back end with an empty database and cache.
    pub fn new(manager_type: PackageManagerType) -> (r: Self)
        ensures
            r.wf(),
            r.type_spec() == manager_type,
            r.database_spec().wf(),
            r.database_spec().packages_spec() == Map::<Seq<char>, PackageInfo>::empty(),
    {
        PackageManager { database: PackageDatabase::new(), cache: PackageCache::new(), manager_type }
    }

    /// Runs an operation on the package `package_name` (or the query, for
    /// a search): install and upgrade are not supported, nor is update;
    /// remove takes the package out of the database; search, info and
    /// list report on the database.
    pub fn execute_operation(&mut self, operation: PackageOperation, package_name: &str) -> (r: PackageResult<String>)
        requires
            old(self).wf(),
        ensures
            final(self).wf(),
            final(self).type_spec() == old(self).type_spec(),
            operation_done(*old(self), *final(self), operation, package_name@, r),
    {
        match operation {
            PackageOperation::Install => self.install(package_name),
            PackageOperation::Remove => self.remove(package_name),
            PackageOperation::Update => Err(
                PackageError::not_implemented("Package database update requires network and repository API support"),
            ),
            PackageOperation::Search => self.search(package_name),
            PackageOperation::Info => self.info(package_name),
            PackageOperation::List => self.list(),
            PackageOperation::Upgrade => {
                let mut msg = String::from_str("Package upgrade not yet implemented for ");
                append_str(&mut msg, package_name);
                Err(PackageError::NotImplemented(msg))
            },
        }
    }

    fn install(&self, package_name: &str) -> (r: PackageResult<String>)
        requires
            self.wf(),
        ensures
            if self.database.packages_spec().dom().contains(package_name@) {
                r matches Err(e) && e@ == ErrorSpec::InvalidOperation(
                    "Package "@ + package_name@ + " is already installed"@,
                )
            } else {
                r matches Err(e) && e@ == ErrorSpec::NotImplemented(
                    "Package installation requires network stack and filesystem support. See docs/LINUX_APP_SUPPORT.md for implementation requirements."@,
                )
            },
    {
        if self.database.is_installed(package_name) {
            let mut msg = String::from_str("Package ");
            append_str(&mut msg, package_name);
            append_str(&mut msg, " is already installed");
            return Err(PackageError::InvalidOperation(msg));
        }
        Err(
            PackageError::not_implemented(
                "Package installation requires network stack and filesystem support. See docs/LINUX_APP_SUPPORT.md for implementation requirements.",
            ),
        )
    }

    fn remove(&mut self, package_name: &str) -> (r: PackageResult<String>)
        requires
            old(self).wf(),
        ensures
            final(self).wf(),
            final(self).manager_type == old(self).manager_type,
            final(self).database.packages_spec() == old(self).database.packages_spec().remove(package_name@),
            if old(self).database.packages_spec().dom().contains(package_name@) {
                r matches Ok(s) && s@ == "Package "@ + package_name@ + " marked for removal (experimental)"@
            } else {
                r matches Err(e) && e@ == ErrorSpec::NotFound("Package "@ + package_name@ + " not found"@)
            },
    {
        match self.database.remove_package(package_name) {
            Ok(_) => {
                let mut msg = String::from_str("Package ");
                append_str(&mut msg, package_name);
                append_str(&mut msg, " marked for removal (experimental)");
                Ok(msg)
            },
            Err(e) => Err(e),
        }
    }

    fn search(&self, query: &str) -> (r: PackageResult<String>)
        requires
            self.wf(),
        ensures
            ({
                let db = self.database.packages_spec();
                let found = search_spec(self.database.name_order().map_values(|k: Seq<char>| db[k]), query@);
                &&& found.len() == 0 ==> (r matches Ok(s) && s@ == "No packages found matching '"@ + query@ + "'"@)
                &&& found.len() > 0 ==> (r matches Ok(s) && s@ == "Found "@ + decimal(found.len())
                    + " package(s):\n"@ + joined(found, |p: PackageInfo| search_line(p)))
            }),
    {
        let results = self.database.search(query);
        if results.len() == 0 {
            let mut msg = String::from_str("No packages found matching '");
            append_str(&mut msg, query);
            append_str(&mut msg, "'");
            return Ok(msg);
        }
        let mut out = String::from_str("Found ");
        let count = decimal_u64(results.len() as u64);
        append_str(&mut out, count.as_str());
        append_str(&mut out, " package(s):\n");
        append_lines(&mut out, &results, false);
        Ok(out)
    }

    fn info(&self, package_name: &str) -> (r: PackageResult<String>)
        requires
            self.wf(),
        ensures
            if self.database.packages_spec().dom().contains(package_name@) {
                r matches Ok(s) && s@ == info_text(self.database.packages_spec()[package_name@])
            } else {
                r matches Err(e) && e@ == ErrorSpec::NotFound("Package "@ + package_name@ + " not found"@)
            },
    {
        let p = match self.database.get_package(package_name) {
            Some(p) => p,
            None => {
                let mut msg = String::from_str("Package ");
                append_str(&mut msg, package_name);
                append_str(&mut msg, " not found");
                return Err(PackageError::NotFound(msg));
            },
        };
        let mut out = String::from_str("Package: ");
        append_str(&mut out, p.metadata.name.as_str());
        append_str(&mut out, "\nVersion: ");
        append_str(&mut out, p.metadata.version.as_str());
        append_str(&mut out, "\nArchitecture: ");
        append_str(&mut out, p.metadata.architecture.as_str());
        append_str(&mut out, "\nDescription: ");
        append_str(&mut out, p.metadata.description.as_str());
        append_str(&mut out, "\nStatus: ");
        append_str(&mut out, status_name(p.status));
        append_str(&mut out, "\nInstalled files: ");
        let count = decimal_u64(p.installed_files.len() as u64);
        append_str(&mut out, count.as_str());
        append_str(&mut out, "\n");
        proof {
            reveal_strlit("\nVersion: ");
            reveal_strlit("Version: ");
            reveal_strlit("\nArchitecture: ");
            reveal_strlit("Architecture: ");
            reveal_strlit("\nDescription: ");
            reveal_strlit("Description: ");
            reveal_strlit("\nStatus: ");
            reveal_strlit("Status: ");
            reveal_strlit("\nInstalled files: ");
            reveal_strlit("Installed files: ");
            reveal_strlit("\n");
        }
        let ghost base = out@;
        assert(base =~= "Package: "@ + p.metadata.name@ + "\n"@ + "Version: "@ + p.metadata.version@ + "\n"@
            + "Architecture: "@ + p.metadata.architecture@ + "\n"@ + "Description: "@ + p.metadata.description@
            + "\n"@ + "Status: "@ + status_label(p.status) + "\n"@ + "Installed files: "@ + decimal(
            p.installed_files@.len(),
        ) + "\n"@);
        match &p.metadata.maintainer {
            Some(m) => {
                append_str(&mut out, "Maintainer: ");
                append_str(&mut out, m.as_str());
                append_str(&mut out, "\n");
            },
            None => {},
        }
        let deps = &p.metadata.dependencies;
        if deps.len() > 0 {
            append_str(&mut out, "Dependencies:\n");
            let ghost start = out@;
            let mut i: usize = 0;
            while i < deps.len()
                invariant
                    i <= deps@.len(),
                    out@ == start + dependency_lines(deps@.take(i as int)),
                decreases deps@.len() - i,
            {
                append_str(&mut out, "  - ");
                append_str(&mut out, deps[i].as_str());
                append_str(&mut out, "\n");
                assert(deps@.take(i + 1).drop_last() =~= deps@.take(i as int));
                assert(out@ =~= start + dependency_lines(deps@.take(i + 1)));
                i = i + 1;
            }
            assert(deps@.take(deps@.len() as int) =~= deps@);
        }
        Ok(out)
    }

    fn list(&self) -> (r: PackageResult<String>)
        requires
            self.wf(),
        ensures
            ({
                let db = self.database.packages_spec();
                let all = self.database.name_order().map_values(|k: Seq<char>| db[k]);
                &&& all.len() == 0 ==> (r matches Ok(s) && s@ == "No packages installed"@)
                &&& all.len() > 0 ==> (r matches Ok(s) && s@ == "Installed packages ("@ + decimal(all.len())
                    + "):\n"@ + joined(all, |p: PackageInfo| list_line(p)))
            }),
    {
        let packages = self.database.list_packages();
        let ghost all = self.database.name_order().map_values(|k: Seq<char>| self.database.packages_spec()[k]);
        assert(packages@.map_values(|p: &PackageInfo| *p) =~= all);
        if packages.len() == 0 {
            return Ok(String::from_str("No packages installed"));
        }
        let mut out = String::from_str("Installed packages (");
        let count = decimal_u64(packages.len() as u64);
        append_str(&mut out, count.as_str());
        append_str(&mut out, "):\n");
        append_lines(&mut out, &packages, true);
        Ok(out)
    }

    /// The package database.
    pub fn database(&self) -> (r: &PackageDatabase)
        ensures
            r == self.database_spec(),
    {
        &self.database
    }

    /// The package database, to change.
    pub fn database_mut(&mut self) -> (r: &mut PackageDatabase)
        ensures
            *r == *old(self).database_spec(),
            *final(self).database_spec() == *final(r),
            final(self).type_spec() == old(self).type_spec(),
    {
        &mut self.database
    }

    /// The back end.
    pub fn manager_type(&self) -> (r: PackageManagerType)
        ensures
            r == self.type_spec(),
    {
        self.manager_type
    }
}

} // verus!
