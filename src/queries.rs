//! Saved graph queries: the built-in ones and those the user adds.

use vstd::prelude::*;

verus! {

/// A named graph query.
pub struct Query {
    pub name: String,
    pub cypher: String,
}

/// The saved queries: the built-in general and per-identity ones, and those
/// the user added.
pub struct QueriesConfig {
    pub predefined: Vec<Query>,
    pub identity: Vec<Query>,
    pub user: Vec<Query>,
}

/// Number of built-in general queries.
pub const PREDEFINED_COUNT: usize = 12;

/// Number of built-in per-identity queries.
pub const IDENTITY_COUNT: usize = 4;

/// The name of the `i`-th built-in general query.
pub open spec fn predefined_name_spec(i: int) -> Seq<char> {
    if i == 0 {
        "Search Password Files"@
    }
    else if i == 1 {
        "Search bak Files"@
    }
    else if i == 2 {
        "Search Scripts"@
    }
    else if i == 3 {
        "Search Key/Cert Files"@
    }
    else if i == 4 {
        "Search Config Files"@
    }
    else if i == 5 {
        "Search VM Files"@
    }
    else if i == 6 {
        "Search Webroots"@
    }
    else if i == 7 {
        "Search Common Documents"@
    }
    else if i == 8 {
        "Interesting Paths to Shares for low privilege groups"@
    }
    else if i == 9 {
        "Get ACLs of low privilege groups to Shares"@
    }
    else if i == 10 {
        "Search POS System Files"@
    }
    else {
        "Search for PII Documents"@
    }
}

fn predefined_name(i: usize) -> (r: &'static str)
    ensures
        r@ == predefined_name_spec(i as int),
{
    match i {
        0 => "Search Password Files",
        1 => "Search bak Files",
        2 => "Search Scripts",
        3 => "Search Key/Cert Files",
        4 => "Search Config Files",
        5 => "Search VM Files",
        6 => "Search Webroots",
        7 => "Search Common Documents",
        8 => "Interesting Paths to Shares for low privilege groups",
        9 => "Get ACLs of low privilege groups to Shares",
        10 => "Search POS System Files",
        _ => "Search for PII Documents",
    }
}

/// The cypher of the `i`-th built-in general query.
pub open spec fn predefined_cypher_spec(i: int) -> Seq<char> {
    if i == 0 {
        "MATCH (a:file where toLower(a.name) =~ '.*passw.*|.*unattend.*|.*zugang.*|.*login.*|.*zugriff.*|.*credential.*') RETURN a.name as Name,a.full_path as Path,a.extension as Extension"@
    }
    else if i == 1 {
        "MATCH (a:file where a.extension = 'bak') RETURN a.name as Name,a.size as Size,a.extension as Extension,a.full_path as Path"@
    }
    else if i == 2 {
        "MATCH (a:file where a.extension =~ '^(sql|cmd|bat|ps1|vbs|hta)$') RETURN a.name as Name,a.size as Size,a.extension as Extension,a.full_path as Path"@
    }
    else if i == 3 {
        "MATCH (a:file where a.extension =~ '^(key|crt|cer|pfx|p12|pem|csr|p7b|p7c|p7r|p7s)$') RETURN a.name as Name,a.size as Size,a.extension as Extension,a.full_path as Path"@
    }
    else if i == 4 {
        "MATCH (a:file where a.extension =~ '^(cfg|conf|ini|xml|json|yaml|yml|properties|toml|hocon|env|sh|bash|zsh|config|tcsh|csh)$') RETURN a.name as Name,a.size as Size,a.extension as Extension,a.full_path as Path"@
    }
    else if i == 5 {
        "MATCH (a:file where a.extension =~ '^(vmx|vmdk|vmsd|vmsn|vmss|vmxf|vmxh|vmxw|vhdx|vhdi|vhd|vhdx|vdi|vdi)$') RETURN a.name as Name,a.size as Size,a.extension as Extension,a.full_path as Path"@
    }
    else if i == 6 {
        "MATCH (a:file where a.extension =~ '^(aspx|asp|php|jsp|html|htm)$') RETURN a.name as Name,a.size as Size,a.extension as Extension,a.full_path as Path"@
    }
    else if i == 7 {
        "MATCH (a:file where a.extension =~ '^(doc|docx|xls|xlsx|ppt|pptx|pdf)$') RETURN a.name as Name,a.size as Size,a.extension as Extension,a.full_path as Path"@
    }
    else if i == 8 {
        "MATCH p=(i:Identity WHERE i.name IN ['Everyone', 'Authenticated Users', 'BUILTIN\\Users'] OR i.sid contains '-513')-[r]-(s:share) where type(r) IN ['FullControl', 'ReadData/ListDirectory', 'WriteData/AddFile'] RETURN p"@
    }
    else if i == 9 {
        "MATCH (i:Identity)-[r]-(s:share) WHERE i.name IN ['Everyone', 'Authenticated Users', 'BUILTIN\\Users'] OR i.sid contains '-513' RETURN s.name AS ShareName, i.name AS Identity, collect(type(r)) AS Permissions ORDER BY ShareName, Identity"@
    }
    else if i == 10 {
        "MATCH (a:file) WHERE a.extension =~ '^(csv|txt|log|db|mdb|sqlite|pos|rpt|json|xml)$' AND toLower(a.name) =~ '.*pos.*|.*receipt.*|.*transaction.*|.*payment.*|.*terminal.*|.*checkout.*|.*invoice.*|.*retail.*|.*sale.*|.*register.*|.*lightspeed.*|.*square.*|.*shopify.*|.*clover.*|.*aloha.*|.*faktur.*|.*x3000.*|.*kasse.*' RETURN a.name as Name, a.size as Size, a.extension as Extension, a.full_path as Path"@
    }
    else {
        "MATCH (a:file) WHERE a.extension IN ['pdf', 'xls', 'xlsx'] AND toLower(a.name) =~ '.*ausweis.*|.*reisepass.*|.*passport.*|.*versicherung.*|.*AHV.*|.*insurance.*|.*steuer.*|.*tax.*|.*gehalt.*|.*salary.*|.*vertrag.*|.*contract.*|.*lebenslauf.*|.*resume.*|.*cv.*|.*zeugnis.*|.*certificate.*|.*bescheinigung.*|.*bewohner.*|.*license.*|.*identification.*|.*id.*|.*ssn.*|.*sozial.*|.*payroll.*|.*lohn.*|.*medical.*|.*bank.*|.*employee.*|.*mitarbeiter.*|.*kreditkarte.*|.*privat.*|.*vertraulich.*|.*confidential.*' RETURN a.name as Name, a.size as Size, a.extension as Extension, a.full_path as Path"@
    }
}

fn predefined_cypher(i: usize) -> (r: &'static str)
    ensures
        r@ == predefined_cypher_spec(i as int),
{
    match i {
        0 => "MATCH (a:file where toLower(a.name) =~ '.*passw.*|.*unattend.*|.*zugang.*|.*login.*|.*zugriff.*|.*credential.*') RETURN a.name as Name,a.full_path as Path,a.extension as Extension",
        1 => "MATCH (a:file where a.extension = 'bak') RETURN a.name as Name,a.size as Size,a.extension as Extension,a.full_path as Path",
        2 => "MATCH (a:file where a.extension =~ '^(sql|cmd|bat|ps1|vbs|hta)$') RETURN a.name as Name,a.size as Size,a.extension as Extension,a.full_path as Path",
        3 => "MATCH (a:file where a.extension =~ '^(key|crt|cer|pfx|p12|pem|csr|p7b|p7c|p7r|p7s)$') RETURN a.name as Name,a.size as Size,a.extension as Extension,a.full_path as Path",
        4 => "MATCH (a:file where a.extension =~ '^(cfg|conf|ini|xml|json|yaml|yml|properties|toml|hocon|env|sh|bash|zsh|config|tcsh|csh)$') RETURN a.name as Name,a.size as Size,a.extension as Extension,a.full_path as Path",
        5 => "MATCH (a:file where a.extension =~ '^(vmx|vmdk|vmsd|vmsn|vmss|vmxf|vmxh|vmxw|vhdx|vhdi|vhd|vhdx|vdi|vdi)$') RETURN a.name as Name,a.size as Size,a.extension as Extension,a.full_path as Path",
        6 => "MATCH (a:file where a.extension =~ '^(aspx|asp|php|jsp|html|htm)$') RETURN a.name as Name,a.size as Size,a.extension as Extension,a.full_path as Path",
        7 => "MATCH (a:file where a.extension =~ '^(doc|docx|xls|xlsx|ppt|pptx|pdf)$') RETURN a.name as Name,a.size as Size,a.extension as Extension,a.full_path as Path",
        8 => "MATCH p=(i:Identity WHERE i.name IN ['Everyone', 'Authenticated Users', 'BUILTIN\\Users'] OR i.sid contains '-513')-[r]-(s:share) where type(r) IN ['FullControl', 'ReadData/ListDirectory', 'WriteData/AddFile'] RETURN p",
        9 => "MATCH (i:Identity)-[r]-(s:share) WHERE i.name IN ['Everyone', 'Authenticated Users', 'BUILTIN\\Users'] OR i.sid contains '-513' RETURN s.name AS ShareName, i.name AS Identity, collect(type(r)) AS Permissions ORDER BY ShareName, Identity",
        10 => "MATCH (a:file) WHERE a.extension =~ '^(csv|txt|log|db|mdb|sqlite|pos|rpt|json|xml)$' AND toLower(a.name) =~ '.*pos.*|.*receipt.*|.*transaction.*|.*payment.*|.*terminal.*|.*checkout.*|.*invoice.*|.*retail.*|.*sale.*|.*register.*|.*lightspeed.*|.*square.*|.*shopify.*|.*clover.*|.*aloha.*|.*faktur.*|.*x3000.*|.*kasse.*' RETURN a.name as Name, a.size as Size, a.extension as Extension, a.full_path as Path",
        _ => "MATCH (a:file) WHERE a.extension IN ['pdf', 'xls', 'xlsx'] AND toLower(a.name) =~ '.*ausweis.*|.*reisepass.*|.*passport.*|.*versicherung.*|.*AHV.*|.*insurance.*|.*steuer.*|.*tax.*|.*gehalt.*|.*salary.*|.*vertrag.*|.*contract.*|.*lebenslauf.*|.*resume.*|.*cv.*|.*zeugnis.*|.*certificate.*|.*bescheinigung.*|.*bewohner.*|.*license.*|.*identification.*|.*id.*|.*ssn.*|.*sozial.*|.*payroll.*|.*lohn.*|.*medical.*|.*bank.*|.*employee.*|.*mitarbeiter.*|.*kreditkarte.*|.*privat.*|.*vertraulich.*|.*confidential.*' RETURN a.name as Name, a.size as Size, a.extension as Extension, a.full_path as Path",
    }
}

/// The name of the `i`-th built-in per-identity query.
pub open spec fn identity_name_spec(i: int) -> Seq<char> {
    if i == 0 {
        "Path to Password Files"@
    }
    else if i == 1 {
        "Write Access to Executables"@
    }
    else if i == 2 {
        "Find Accessible Shares"@
    }
    else {
        "Show associated Identities"@
    }
}

fn identity_name(i: usize) -> (r: &'static str)
    ensures
        r@ == identity_name_spec(i as int),
{
    match i {
        0 => "Path to Password Files",
        1 => "Write Access to Executables",
        2 => "Find Accessible Shares",
        _ => "Show associated Identities",
    }
}

/// The cypher of the `i`-th built-in per-identity query.
pub open spec fn identity_cypher_spec(i: int) -> Seq<char> {
    if i == 0 {
        "MATCH p=(i:Identity WHERE i.sid = $nodeSID)-[*]->(a:file) 
    WHERE toLower(a.name) =~ '.*passw.*|.*unattend.*|.*zugang.*|.*login.*|.*zugriff.*|.*credential.*' 
    AND any(r IN relationships(p) WHERE type(r) IN ['ReadData/ListDirectory', 'Read', 'ReadAndExecute', 'ReadAndWrite', 'Modify', 'FullControl', 'GenericRead', 'GenericAll'])
    RETURN p"@
    }
    else if i == 1 {
        "
                        MATCH p=(i:Identity WHERE i.sid = $nodeSID)-[*]->(a:file)
                        WHERE a.extension IN ['exe', 'dll', 'bat', 'cmd', 'ps1', 'vbs', 'hta', 'msi', 'com', 'scr', 'cpl']
                        AND any(r IN relationships(p) WHERE type(r) IN ['WriteData/AddFile', 'AppendData/AddSubdirectory', 'WriteExtendedAttributes', 'WriteAttributes', 'WriteOwner', 'WriteDAC', 'FullControl', 'Modify', 'ReadAndWrite', 'Write', 'GenericWrite', 'GenericAll'])
                        RETURN p
                    "@
    }
    else if i == 2 {
        "
                    MATCH p=(i:Identity WHERE i.sid = $nodeSID)-[*]->(a:share) 
                    WHERE any(r IN relationships(p) WHERE type(r) IN ['ReadData/ListDirectory', 'Read', 'ReadAndExecute', 'ReadAndWrite', 'Modify', 'FullControl', 'GenericRead', 'GenericAll'])
                    RETURN p"@
    }
    else {
        "
                    MATCH p=(i:Identity WHERE i.sid = $nodeSID)-[:MEMBER_OF]-(a:Identity)
                    RETURN p
                    "@
    }
}

fn identity_cypher(i: usize) -> (r: &'static str)
    ensures
        r@ == identity_cypher_spec(i as int),
{
    match i {
        0 => "MATCH p=(i:Identity WHERE i.sid = $nodeSID)-[*]->(a:file) 
    WHERE toLower(a.name) =~ '.*passw.*|.*unattend.*|.*zugang.*|.*login.*|.*zugriff.*|.*credential.*' 
    AND any(r IN relationships(p) WHERE type(r) IN ['ReadData/ListDirectory', 'Read', 'ReadAndExecute', 'ReadAndWrite', 'Modify', 'FullControl', 'GenericRead', 'GenericAll'])
    RETURN p",
        1 => "
                        MATCH p=(i:Identity WHERE i.sid = $nodeSID)-[*]->(a:file)
                        WHERE a.extension IN ['exe', 'dll', 'bat', 'cmd', 'ps1', 'vbs', 'hta', 'msi', 'com', 'scr', 'cpl']
                        AND any(r IN relationships(p) WHERE type(r) IN ['WriteData/AddFile', 'AppendData/AddSubdirectory', 'WriteExtendedAttributes', 'WriteAttributes', 'WriteOwner', 'WriteDAC', 'FullControl', 'Modify', 'ReadAndWrite', 'Write', 'GenericWrite', 'GenericAll'])
                        RETURN p
                    ",
        2 => "
                    MATCH p=(i:Identity WHERE i.sid = $nodeSID)-[*]->(a:share) 
                    WHERE any(r IN relationships(p) WHERE type(r) IN ['ReadData/ListDirectory', 'Read', 'ReadAndExecute', 'ReadAndWrite', 'Modify', 'FullControl', 'GenericRead', 'GenericAll'])
                    RETURN p",
        _ => "
                    MATCH p=(i:Identity WHERE i.sid = $nodeSID)-[:MEMBER_OF]-(a:Identity)
                    RETURN p
                    ",
    }
}

/// Whether `q` holds the given name and text.
pub open spec fn query_is(q: Query, name: Seq<char>, cypher: Seq<char>) -> bool {
    q.name@ == name && q.cypher@ == cypher
}

fn built_in(identity: bool, n: usize) -> (r: Vec<Query>)
    requires
        n == (if identity { IDENTITY_COUNT } else { PREDEFINED_COUNT }),
    ensures
        r@.len() == n,
        forall|i: int|
            0 <= i < n ==> query_is(
                #[trigger] r@[i],
                if identity { identity_name_spec(i) } else { predefined_name_spec(i) },
                if identity { identity_cypher_spec(i) } else { predefined_cypher_spec(i) },
            ),
{
    let mut r: Vec<Query> = Vec::new();
    let mut i: usize = 0;
    while i < n
        invariant
            i <= n,
            r@.len() == i,
            forall|j: int|
                0 <= j < i ==> query_is(
                    #[trigger] r@[j],
                    if identity { identity_name_spec(j) } else { predefined_name_spec(j) },
                    if identity { identity_cypher_spec(j) } else { predefined_cypher_spec(j) },
                ),
        decreases n - i,
    {
        let q = if identity {
            Query { name: String::from_str(identity_name(i)), cypher: String::from_str(identity_cypher(i)) }
        } else {
            Query { name: String::from_str(predefined_name(i)), cypher: String::from_str(predefined_cypher(i)) }
        };
        r.push(q);
        i = i + 1;
    }
    r
}

impl Default for QueriesConfig {
    /// The built-in queries, and no user query.
    fn default() -> (r: Self)
        ensures
            r.predefined@.len() == PREDEFINED_COUNT,
            forall|i: int|
                0 <= i < PREDEFINED_COUNT ==> query_is(
                    #[trigger] r.predefined@[i],
                    predefined_name_spec(i),
                    predefined_cypher_spec(i),
                ),
            r.identity@.len() == IDENTITY_COUNT,
            forall|i: int|
                0 <= i < IDENTITY_COUNT ==> query_is(
                    #[trigger] r.identity@[i],
                    identity_name_spec(i),
                    identity_cypher_spec(i),
                ),
            r.user@.len() == 0,
    {
        QueriesConfig {
            predefined: built_in(false, PREDEFINED_COUNT),
            identity: built_in(true, IDENTITY_COUNT),
            user: Vec::new(),
        }
    }
}

impl QueriesConfig {
    /// Appends a user query.
    pub fn add_user_query(&mut self, name: String, cypher: String)
        ensures
            final(self).predefined == old(self).predefined,
            final(self).identity == old(self).identity,
            final(self).user@ == old(self).user@.push(Query { name, cypher }),
    {
        self.user.push(Query { name, cypher });
    }

    /// Removes the user query at `index`; an index past the end changes
    /// nothing. Returns whether a query was removed.
    pub fn delete_user_query(&mut self, index: usize) -> (r: bool)
        ensures
            final(self).predefined == old(self).predefined,
            final(self).identity == old(self).identity,
            r == (index < old(self).user@.len()),
            r ==> final(self).user@ == old(self).user@.remove(index as int),
            !r ==> final(self).user@ == old(self).user@,
    {
        if index < self.user.len() {
            self.user.remove(index);
            true
        } else {
            false
        }
    }
}

} // verus!
