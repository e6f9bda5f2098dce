//! The layout and sync rules of a project folder: the three standard
//! sub-folders, how each is synchronised, and how a project's display name
//! becomes its folder name.
use vstd::prelude::*;

verus! {

/// How the files of one standard sub-folder are synchronised.
#[derive(Debug, Clone, Copy, PartialEq, Eq, Structural)]
pub enum SyncRule {
    /// Downloaded automatically, never uploaded (customer files).
    DownloadOnly,
    /// Synchronised both ways automatically (work files).
    Bidirectional,
    /// Uploaded by hand only (model files).
    ManualUpload,
}

/// A standard sub-folder of a project and its rule.
#[derive(Debug, Clone)]
pub struct FolderConfig {
    pub name: String,
    pub rule: SyncRule,
}

/// What the synchroniser is doing.
#[derive(Debug, Clone)]
pub struct SyncStatus {
    pub is_syncing: bool,
    pub last_sync: Option<String>,
    pub pending_uploads: u32,
    pub pending_downloads: u32,
}

/// Name of the customer-files sub-folder.
pub open spec fn customer_folder() -> Seq<char> {
    seq!['客', '户', '文', '件']
}

/// Name of the work-files sub-folder.
pub open spec fn works_folder() -> Seq<char> {
    seq!['作', '品', '文', '件']
}

/// Name of the model-files sub-folder.
pub open spec fn models_folder() -> Seq<char> {
    seq!['模', '型', '文', '件']
}

/// The rule of the standard sub-folder named `folder`, if it is one.
pub open spec fn rule_of(folder: Seq<char>) -> Option<SyncRule> {
    if folder == customer_folder() {
        Some(SyncRule::DownloadOnly)
    } else if folder == works_folder() {
        Some(SyncRule::Bidirectional)
    } else if folder == models_folder() {
        Some(SyncRule::ManualUpload)
    } else {
        None
    }
}

/// The name by which a rule is reported.
pub open spec fn rule_name(rule: Option<SyncRule>) -> Seq<char> {
    match rule {
        Some(SyncRule::DownloadOnly) => seq![
            'd', 'o', 'w', 'n', 'l', 'o', 'a', 'd', '_', 'o', 'n', 'l', 'y'
        ],
        Some(SyncRule::Bidirectional) => seq![
            'b', 'i', 'd', 'i', 'r', 'e', 'c', 't', 'i', 'o', 'n', 'a', 'l'
        ],
        Some(SyncRule::ManualUpload) => seq![
            'm', 'a', 'n', 'u', 'a', 'l', '_', 'u', 'p', 'l', 'o', 'a', 'd'
        ],
        None => seq!['u', 'n', 'k', 'n', 'o', 'w', 'n'],
    }
}

/// Whether files of a folder with rule `rule` move automatically in the
/// given direction.
pub open spec fn syncs(rule: Option<SyncRule>, is_upload: bool) -> bool {
    match rule {
        Some(SyncRule::DownloadOnly) => !is_upload,
        Some(SyncRule::Bidirectional) => true,
        _ => false,
    }
}

/// The sub-folder that holds the assets of kind `asset_type`.
pub open spec fn asset_folder_of(asset_type: Seq<char>) -> Option<Seq<char>> {
    if asset_type == seq!['w', 'o', 'r', 'k', 's'] {
        Some(works_folder())
    } else if asset_type == seq!['m', 'o', 'd', 'e', 'l', 's'] {
        Some(models_folder())
    } else if asset_type == seq!['c', 'u', 's', 't', 'o', 'm', 'e', 'r'] {
        Some(customer_folder())
    } else {
        None
    }
}

/// Index of the last `c` in `s`, or -1.
pub open spec fn last_index_of(s: Seq<char>, c: char) -> int
    decreases s.len(),
{
    if s.len() == 0 {
        -1
    } else if s.last() == c {
        s.len() - 1
    } else {
        last_index_of(s.drop_last(), c)
    }
}

/// A character from `0` to `9`.
pub open spec fn is_ascii_digit(c: char) -> bool {
    '0' <= c <= '9'
}

/// A group code: `Q` followed by ASCII digits only.
pub open spec fn is_group_code(s: Seq<char>) -> bool {
    s.len() >= 1 && s[0] == 'Q' && forall|i: int| 1 <= i < s.len() ==> is_ascii_digit(#[trigger] s[i])
}

/// `name_Qdigits` becomes `Qdigits_name`, splitting at the last `_`; any
/// other name is kept.
pub open spec fn code_first(s: Seq<char>) -> Seq<char> {
    let pos = last_index_of(s, '_');
    if pos >= 0 && is_group_code(s.subrange(pos + 1, s.len() as int)) {
        s.subrange(pos + 1, s.len() as int) + seq!['_'] + s.subrange(0, pos)
    } else {
        s
    }
}

/// Characters that a folder name may not hold.
pub open spec fn is_reserved_char(c: char) -> bool {
    c == '/' || c == '\\' || c == ':' || c == '*' || c == '?' || c == '"' || c == '<' || c == '>'
        || c == '|'
}

/// `s` with each reserved character replaced by `_`.
pub open spec fn sanitized(s: Seq<char>) -> Seq<char> {
    s.map_values(|c: char|
        if is_reserved_char(c) {
            '_'
        } else {
            c
        })
}

/// The folder name of a project: a name that already holds a path
/// separator is kept as given; any other has its group code moved to the
/// front and its reserved characters replaced by `_`.
pub open spec fn normalized_project_name(s: Seq<char>) -> Seq<char> {
    if s.contains('/') || s.contains('\\') {
        s
    } else {
        sanitized(code_first(s))
    }
}

/// `s` with every `-` removed.
pub open spec fn without_dashes(s: Seq<char>) -> Seq<char>
    decreases s.len(),
{
    if s.len() == 0 {
        s
    } else if s.last() == '-' {
        without_dashes(s.drop_last())
    } else {
        without_dashes(s.drop_last()).push(s.last())
    }
}

/// Name under which a downloaded model file is stored:
/// `云端_<stem>_<uploader>_<date without dashes>` followed by `.<extension>`
/// when the original name has one.
pub open spec fn model_name(
    stem: Seq<char>,
    extension: Option<Seq<char>>,
    uploader: Seq<char>,
    upload_date: Seq<char>,
) -> Seq<char> {
    seq!['云', '端', '_'] + stem + seq!['_'] + uploader + seq!['_'] + without_dashes(upload_date)
        + match extension {
        Some(e) => seq!['.'] + e,
        None => Seq::<char>::empty(),
    }
}

proof fn lemma_last_index_of(s: Seq<char>, c: char)
    ensures
        -1 <= last_index_of(s, c) < s.len(),
        last_index_of(s, c) >= 0 ==> s[last_index_of(s, c)] == c,
        forall|j: int| last_index_of(s, c) < j < s.len() ==> s[j] != c,
    decreases s.len(),
{
    if s.len() > 0 && s.last() != c {
        lemma_last_index_of(s.drop_last(), c);
        assert forall|j: int| last_index_of(s, c) < j < s.len() implies s[j] != c by {
            if j < s.len() - 1 {
                assert(s.drop_last()[j] == s[j]);
            }
        }
    }
}

fn contains_char(s: &str, c: char) -> (r: bool)
    ensures
        r == s@.contains(c),
{
    let n = s.unicode_len();
    let mut i: usize = 0;
    while i < n
        invariant
            n == s@.len(),
            0 <= i <= n,
            forall|j: int| 0 <= j < i ==> s@[j] != c,
        decreases n - i,
    {
        if s.get_char(i) == c {
            return true;
        }
        i += 1;
    }
    false
}

pub(crate) fn text_equals(s: &str, t: &str) -> (r: bool)
    ensures
        r == (s@ == t@),
{
    let n = s.unicode_len();
    if n != t.unicode_len() {
        return false;
    }
    let mut i: usize = 0;
    while i < n
        invariant
            n == s@.len(),
            n == t@.len(),
            0 <= i <= n,
            forall|j: int| 0 <= j < i ==> s@[j] == t@[j],
        decreases n - i,
    {
        if s.get_char(i) != t.get_char(i) {
            return false;
        }
        i += 1;
    }
    assert(s@ =~= t@);
    true
}

fn folder_rule(folder_type: &str) -> (r: Option<SyncRule>)
    ensures
        r == rule_of(folder_type@),
{
    proof {
        reveal_strlit("客户文件");
        reveal_strlit("作品文件");
        reveal_strlit("模型文件");
        assert("客户文件"@ =~= customer_folder());
        assert("作品文件"@ =~= works_folder());
        assert("模型文件"@ =~= models_folder());
    }
    if text_equals(folder_type, "客户文件") {
        Some(SyncRule::DownloadOnly)
    } else if text_equals(folder_type, "作品文件") {
        Some(SyncRule::Bidirectional)
    } else if text_equals(folder_type, "模型文件") {
        Some(SyncRule::ManualUpload)
    } else {
        None
    }
}

/// The name of the sync rule of sub-folder `folder_type`: `download_only`,
/// `bidirectional`, `manual_upload`, or `unknown` for any other folder.
pub fn get_sync_rule(folder_type: String) -> (r: String)
    ensures
        r@ == rule_name(rule_of(folder_type@)),
{
    let rule = folder_rule(folder_type.as_str());
    let name = match rule {
        Some(SyncRule::DownloadOnly) => {
            proof {
                reveal_strlit("download_only");
            }
            "download_only"
        },
        Some(SyncRule::Bidirectional) => {
            proof {
                reveal_strlit("bidirectional");
            }
            "bidirectional"
        },
        Some(SyncRule::ManualUpload) => {
            proof {
                reveal_strlit("manual_upload");
            }
            "manual_upload"
        },
        None => {
            proof {
                reveal_strlit("unknown");
            }
            "unknown"
        },
    };
    String::from_str(name)
}

/// Whether a file in sub-folder `folder_type` is synchronised
/// automatically in the direction given by `is_upload`.
pub fn should_sync_file(folder_type: String, is_upload: bool) -> (r: bool)
    ensures
        r == syncs(rule_of(folder_type@), is_upload),
{
    match folder_rule(folder_type.as_str()) {
        Some(SyncRule::DownloadOnly) => !is_upload,
        Some(SyncRule::Bidirectional) => true,
        _ => false,
    }
}

/// The synchroniser's status: idle, never synchronised, nothing pending.
pub fn get_sync_status() -> (r: SyncStatus)
    ensures
        !r.is_syncing,
        r.last_sync is None,
        r.pending_uploads == 0,
        r.pending_downloads == 0,
{
    SyncStatus { is_syncing: false, last_sync: None, pending_uploads: 0, pending_downloads: 0 }
}

/// The standard sub-folders of every project, with their rules.
pub fn project_folders() -> (r: Vec<FolderConfig>)
    ensures
        r@.len() == 3,
        r@[0].name@ == customer_folder() && r@[0].rule == SyncRule::DownloadOnly,
        r@[1].name@ == works_folder() && r@[1].rule == SyncRule::Bidirectional,
        r@[2].name@ == models_folder() && r@[2].rule == SyncRule::ManualUpload,
{
    proof {
        reveal_strlit("客户文件");
        reveal_strlit("作品文件");
        reveal_strlit("模型文件");
        assert("客户文件"@ =~= customer_folder());
        assert("作品文件"@ =~= works_folder());
        assert("模型文件"@ =~= models_folder());
    }
    let mut r: Vec<FolderConfig> = Vec::new();
    r.push(FolderConfig { name: String::from_str("客户文件"), rule: SyncRule::DownloadOnly });
    r.push(FolderConfig { name: String::from_str("作品文件"), rule: SyncRule::Bidirectional });
    r.push(FolderConfig { name: String::from_str("模型文件"), rule: SyncRule::ManualUpload });
    r
}

/// The sub-folder holding assets of kind `works`, `models` or `customer`.
pub fn asset_folder(asset_type: &str) -> (r: Option<String>)
    ensures
        r is None <==> asset_folder_of(asset_type@) is None,
        r matches Some(f) ==> asset_folder_of(asset_type@) == Some(f@),
{
    proof {
        reveal_strlit("works");
        reveal_strlit("models");
        reveal_strlit("customer");
        assert("works"@ =~= seq!['w', 'o', 'r', 'k', 's']);
        assert("models"@ =~= seq!['m', 'o', 'd', 'e', 'l', 's']);
        assert("customer"@ =~= seq!['c', 'u', 's', 't', 'o', 'm', 'e', 'r']);
        reveal_strlit("客户文件");
        reveal_strlit("作品文件");
        reveal_strlit("模型文件");
        assert("客户文件"@ =~= customer_folder());
        assert("作品文件"@ =~= works_folder());
        assert("模型文件"@ =~= models_folder());
    }
    if text_equals(asset_type, "works") {
        Some(String::from_str("作品文件"))
    } else if text_equals(asset_type, "models") {
        Some(String::from_str("模型文件"))
    } else if text_equals(asset_type, "customer") {
        Some(String::from_str("客户文件"))
    } else {
        None
    }
}

fn remove_dashes(s: &str) -> (r: String)
    ensures
        r@ == without_dashes(s@),
{
    let n = s.unicode_len();
    let mut out = String::new();
    let mut j: usize = 0;
    while j < n
        invariant
            n == s@.len(),
            0 <= j <= n,
            out@ == without_dashes(s@.subrange(0, j as int)),
        decreases n - j,
    {
        let c = s.get_char(j);
        assert(s@.subrange(0, j + 1).drop_last() =~= s@.subrange(0, j as int));
        if c != '-' {
            out.append(s.substring_char(j, j + 1));
        }
        j += 1;
    }
    assert(s@.subrange(0, n as int) =~= s@);
    out
}

/// The stored name of a model file whose original name has stem `stem`
/// and extension `extension`, uploaded by `uploader` on `upload_date`.
pub fn model_file_name(stem: &str, extension: Option<&str>, uploader: &str, upload_date: &str) -> (r:
    String)
    ensures
        r@ == model_name(
            stem@,
            match extension {
                Some(e) => Some(e@),
                None => None,
            },
            uploader@,
            upload_date@,
        ),
{
    proof {
        reveal_strlit("云端_");
        reveal_strlit("_");
        reveal_strlit(".");
    }
    let date = remove_dashes(upload_date);
    let mut r = String::from_str("云端_");
    r.append(stem);
    r.append("_");
    r.append(uploader);
    r.append("_");
    r.append(date.as_str());
    match extension {
        Some(e) => {
            r.append(".");
            r.append(e);
        },
        None => {},
    }
    assert(r@ =~= model_name(
        stem@,
        match extension {
            Some(e) => Some(e@),
            None => None,
        },
        uploader@,
        upload_date@,
    ));
    r
}

/// The folder name of the project called `project_name`.
pub fn normalize_project_name(project_name: &str) -> (r: String)
    ensures
        r@ == normalized_project_name(project_name@),
{
    let s = project_name;
    let n = s.unicode_len();
    if contains_char(s, '/') || contains_char(s, '\\') {
        return String::from_str(s);
    }
    let mut i: usize = n;
    let mut found = false;
    while i > 0 && !found
        invariant
            n == s@.len(),
            0 <= i <= n,
            found ==> i < n && s@[i as int] == '_',
            forall|j: int| i + (if found { 1int } else { 0int }) <= j < n ==> s@[j] != '_',
        decreases i,
    {
        if s.get_char(i - 1) == '_' {
            found = true;
        }
        i -= 1;
    }
    let pos: usize = if found {
        i
    } else {
        n
    };
    proof {
        lemma_last_index_of(s@, '_');
        let last = last_index_of(s@, '_');
        if found {
            if last > i {
                assert(s@[last] == '_');
            }
            if last < i {
                assert(s@[i as int] != '_');
            }
            assert(last == i);
        } else {
            if last >= 0 {
                assert(s@[last] == '_');
            }
            assert(last == -1);
        }
    }
    let swapped: String = if pos < n {
        let right = s.substring_char(pos + 1, n);
        let right_len = n - (pos + 1);
        let mut code = right_len >= 1 && right.get_char(0) == 'Q';
        let mut k: usize = 1;
        while code && k < right_len
            invariant
                n == s@.len(),
                pos < n,
                right@ == s@.subrange(pos + 1, n as int),
                right_len == right@.len(),
                1 <= k <= right_len || right_len == 0,
                code ==> right_len >= 1 && right@[0] == 'Q' && forall|j: int|
                    1 <= j < k ==> is_ascii_digit(#[trigger] right@[j]),
                !code ==> !is_group_code(right@),
            decreases right_len - k,
        {
            let c = right.get_char(k);
            if !('0' <= c && c <= '9') {
                code = false;
            }
            k += 1;
        }
        assert(code <==> is_group_code(right@));
        if code {
            let left = s.substring_char(0, pos);
            proof {
                reveal_strlit("_");
            }
            let r = String::from_str(right).concat("_").concat(left);
            assert(r@ =~= code_first(s@));
            r
        } else {
            String::from_str(s)
        }
    } else {
        String::from_str(s)
    };
    assert(swapped@ =~= code_first(s@));
    let src = swapped.as_str();
    let m = src.unicode_len();
    let mut out = String::new();
    let mut j: usize = 0;
    while j < m
        invariant
            m == src@.len(),
            0 <= j <= m,
            out@ =~= sanitized(src@.subrange(0, j as int)),
        decreases m - j,
    {
        let c = src.get_char(j);
        if c == '/' || c == '\\' || c == ':' || c == '*' || c == '?' || c == '"' || c == '<' || c
            == '>' || c == '|' {
            proof {
                reveal_strlit("_");
            }
            out.append("_");
        } else {
            out.append(src.substring_char(j, j + 1));
        }
        assert(src@.subrange(0, j + 1) =~= src@.subrange(0, j as int).push(c));
        j += 1;
    }
    assert(src@.subrange(0, m as int) =~= src@);
    out
}

} // verus!
