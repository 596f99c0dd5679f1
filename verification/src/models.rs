//! Model catalog: every downloadable speech model, for both engines.

use crate::chars::{cat, cat3, str_eq};
use vstd::prelude::*;
use vstd::string::*;

verus! {

#[derive(Debug, Clone, Copy, PartialEq, Eq, Structural)]
pub enum EngineKind {
    Whisper,
    Parakeet,
}

impl EngineKind {
    pub open spec fn name(self) -> Seq<char> {
        match self {
            EngineKind::Whisper => "Whisper"@,
            EngineKind::Parakeet => "Parakeet"@,
        }
    }

    pub fn label(self) -> (r: &'static str)
        ensures
            r@ == self.name(),
    {
        match self {
            EngineKind::Whisper => "Whisper",
            EngineKind::Parakeet => "Parakeet",
        }
    }
}

/// One downloadable file belonging to a model.
#[derive(Debug)]
pub struct ModelFile {
    /// File name on disk (and last URL path segment).
    pub name: String,
    /// Full download URL.
    pub url: String,
    /// Approximate size in bytes (progress display only).
    pub expected_bytes: u64,
}

/// What a file entry says.
pub struct FileInfo {
    pub name: Seq<char>,
    pub url: Seq<char>,
    pub expected_bytes: u64,
}

impl View for ModelFile {
    type V = FileInfo;

    open spec fn view(&self) -> FileInfo {
        FileInfo { name: self.name@, url: self.url@, expected_bytes: self.expected_bytes }
    }
}

#[derive(Debug)]
pub struct ModelEntry {
    pub id: String,
    pub name: String,
    pub engine: EngineKind,
    /// For example "English-only" or "25 languages".
    pub languages: String,
    pub size_label: String,
    /// 0 to 100, in tenths of a point; higher is faster.
    pub speed_tenths: u32,
    /// 0 to 100, in tenths of a point; higher is more accurate.
    pub accuracy_tenths: u32,
    /// One-line spotlight tag.
    pub essence: String,
    pub min_ram_gb: u64,
    pub files: Vec<ModelFile>,
}

/// What a catalog entry says.
pub struct ModelInfo {
    pub id: Seq<char>,
    pub name: Seq<char>,
    pub engine: EngineKind,
    pub languages: Seq<char>,
    pub size_label: Seq<char>,
    pub speed_tenths: u32,
    pub accuracy_tenths: u32,
    pub essence: Seq<char>,
    pub min_ram_gb: u64,
    pub files: Seq<FileInfo>,
}

impl View for ModelEntry {
    type V = ModelInfo;

    open spec fn view(&self) -> ModelInfo {
        ModelInfo {
            id: self.id@,
            name: self.name@,
            engine: self.engine,
            languages: self.languages@,
            size_label: self.size_label@,
            speed_tenths: self.speed_tenths,
            accuracy_tenths: self.accuracy_tenths,
            essence: self.essence@,
            min_ram_gb: self.min_ram_gb,
            files: file_infos(self.files@),
        }
    }
}

pub open spec fn file_infos(files: Seq<ModelFile>) -> Seq<FileInfo> {
    Seq::new(files.len(), |i: int| files[i]@)
}

pub open spec fn model_infos(entries: Seq<ModelEntry>) -> Seq<ModelInfo> {
    Seq::new(entries.len(), |i: int| entries[i]@)
}

/// Whether every file is there.
pub open spec fn all_there(present: Seq<bool>) -> bool {
    forall|i: int| 0 <= i < present.len() ==> #[trigger] present[i]
}

impl ModelEntry {
    /// The directory of this model's files, as path segments below the data
    /// directory.
    pub fn dir(&self) -> (r: Vec<String>)
        ensures
            r@.len() == 2,
            r@[0]@ == "models"@,
            r@[1]@ == self.id@,
    {
        let mut v: Vec<String> = Vec::new();
        v.push("models".to_owned());
        v.push(self.id.clone());
        v
    }

    /// Whether every file is there; `present` says so of each, in order.
    pub fn is_downloaded(&self, present: &Vec<bool>) -> (r: bool)
        requires
            present@.len() == self.files@.len(),
        ensures
            r == (forall|i: int| 0 <= i < self.files@.len() ==> #[trigger] present@[i]),
            r == all_there(present@),
    {
        let mut i: usize = 0;
        while i < present.len()
            invariant
                i <= present.len(),
                present@.len() == self.files@.len(),
                forall|k: int| 0 <= k < i ==> #[trigger] present@[k],
            decreases present.len() - i,
        {
            if !present[i] {
                return false;
            }
            i += 1;
        }
        true
    }

    /// The file of a single-file model, as path segments below the data
    /// directory.
    pub fn single_path(&self) -> (r: Option<Vec<String>>)
        ensures
            r is Some <==> self.files@.len() == 1,
            r matches Some(v) ==> v@.len() == 3 && v@[0]@ == "models"@ && v@[1]@ == self.id@
                && v@[2]@ == self.files@[0].name@,
    {
        if self.files.len() == 1 {
            let mut v = self.dir();
            v.push(self.files[0].name.clone());
            Some(v)
        } else {
            None
        }
    }
}

/// The speed, accuracy and tag of a catalog entry.
struct CatalogMeta<'a> {
    speed_tenths: u32,
    accuracy_tenths: u32,
    essence: &'a str,
}

/// The memory that a Whisper model of a size needs.
pub open spec fn whisper_ram(expected_mb: u64) -> u64 {
    if expected_mb > 300 {
        8
    } else if expected_mb > 100 {
        4
    } else {
        2
    }
}

/// A Whisper entry.
pub open spec fn whisper_info(
    id: Seq<char>,
    name: Seq<char>,
    size_label: Seq<char>,
    expected_mb: u64,
    english_only: bool,
    speed_tenths: u32,
    accuracy_tenths: u32,
    essence: Seq<char>,
) -> ModelInfo {
    ModelInfo {
        id,
        name,
        engine: EngineKind::Whisper,
        languages: if english_only {
            "English-only"@
        } else {
            "Multilingual"@
        },
        size_label,
        speed_tenths,
        accuracy_tenths,
        essence,
        min_ram_gb: whisper_ram(expected_mb),
        files: seq![
            FileInfo {
                name: "ggml-"@ + id + ".bin"@,
                url: "https://huggingface.co/ggerganov/whisper.cpp/resolve/main/"@ + ("ggml-"@ + id
                    + ".bin"@),
                expected_bytes: (expected_mb * 1_000_000) as u64,
            },
        ],
    }
}

fn whisper(
    id: &str,
    name: &str,
    size_label: &str,
    expected_mb: u64,
    english_only: bool,
    meta: CatalogMeta<'_>,
) -> (r: ModelEntry)
    requires
        expected_mb * 1_000_000 <= u64::MAX,
    ensures
        r@ == whisper_info(
            id@,
            name@,
            size_label@,
            expected_mb,
            english_only,
            meta.speed_tenths,
            meta.accuracy_tenths,
            meta.essence@,
        ),
{
    let file_name = cat3("ggml-", id, ".bin");
    let url = cat(
        "https://huggingface.co/ggerganov/whisper.cpp/resolve/main/",
        file_name.as_str(),
    );
    let mut files: Vec<ModelFile> = Vec::new();
    files.push(ModelFile { name: file_name, url, expected_bytes: expected_mb * 1_000_000 });
    let r = ModelEntry {
        id: id.to_owned(),
        name: name.to_owned(),
        engine: EngineKind::Whisper,
        languages: if english_only {
            "English-only".to_owned()
        } else {
            "Multilingual".to_owned()
        },
        size_label: size_label.to_owned(),
        speed_tenths: meta.speed_tenths,
        accuracy_tenths: meta.accuracy_tenths,
        essence: meta.essence.to_owned(),
        min_ram_gb: if expected_mb > 300 {
            8
        } else if expected_mb > 100 {
            4
        } else {
            2
        },
        files,
    };
    assert(r@.files =~= whisper_info(
        id@,
        name@,
        size_label@,
        expected_mb,
        english_only,
        meta.speed_tenths,
        meta.accuracy_tenths,
        meta.essence@,
    ).files);
    r
}

/// A file of a Parakeet bundle.
pub open spec fn parakeet_file_info(
    repo: Seq<char>,
    name: Seq<char>,
    expected_bytes: u64,
) -> FileInfo {
    FileInfo {
        name,
        url: "https://huggingface.co/"@ + repo + "/resolve/main/"@ + name,
        expected_bytes,
    }
}

fn parakeet_file(repo: &str, name: &str, expected_bytes: u64) -> (r: ModelFile)
    ensures
        r@ == parakeet_file_info(repo@, name@, expected_bytes),
{
    let base = cat3("https://huggingface.co/", repo, "/resolve/main/");
    ModelFile { name: name.to_owned(), url: cat(base.as_str(), name), expected_bytes }
}

/// A Parakeet entry.
pub open spec fn parakeet_info(
    id: Seq<char>,
    name: Seq<char>,
    repo: Seq<char>,
    languages: Seq<char>,
    size_label: Seq<char>,
    speed_tenths: u32,
    accuracy_tenths: u32,
    essence: Seq<char>,
) -> ModelInfo {
    ModelInfo {
        id,
        name,
        engine: EngineKind::Parakeet,
        languages,
        size_label,
        speed_tenths,
        accuracy_tenths,
        essence,
        min_ram_gb: 4,
        files: seq![
            parakeet_file_info(repo, "encoder.int8.onnx"@, 640_000_000),
            parakeet_file_info(repo, "decoder.int8.onnx"@, 18_000_000),
            parakeet_file_info(repo, "joiner.int8.onnx"@, 7_000_000),
            parakeet_file_info(repo, "tokens.txt"@, 4_000),
        ],
    }
}

fn parakeet(
    id: &str,
    name: &str,
    repo: &str,
    languages: &str,
    size_label: &str,
    meta: CatalogMeta<'_>,
) -> (r: ModelEntry)
    ensures
        r@ == parakeet_info(
            id@,
            name@,
            repo@,
            languages@,
            size_label@,
            meta.speed_tenths,
            meta.accuracy_tenths,
            meta.essence@,
        ),
{
    let mut files: Vec<ModelFile> = Vec::new();
    files.push(parakeet_file(repo, "encoder.int8.onnx", 640_000_000));
    files.push(parakeet_file(repo, "decoder.int8.onnx", 18_000_000));
    files.push(parakeet_file(repo, "joiner.int8.onnx", 7_000_000));
    files.push(parakeet_file(repo, "tokens.txt", 4_000));
    let r = ModelEntry {
        id: id.to_owned(),
        name: name.to_owned(),
        engine: EngineKind::Parakeet,
        languages: languages.to_owned(),
        size_label: size_label.to_owned(),
        speed_tenths: meta.speed_tenths,
        accuracy_tenths: meta.accuracy_tenths,
        essence: meta.essence.to_owned(),
        min_ram_gb: 4,
        files,
    };
    assert(r@.files =~= parakeet_info(
        id@,
        name@,
        repo@,
        languages@,
        size_label@,
        meta.speed_tenths,
        meta.accuracy_tenths,
        meta.essence@,
    ).files);
    r
}

/// The catalog, best default first.
pub open spec fn catalog_info() -> Seq<ModelInfo> {
    seq![
        parakeet_info(
            "parakeet-v3"@,
            "Parakeet TDT 0.6B v3"@,
            "csukuangfj/sherpa-onnx-nemo-parakeet-tdt-0.6b-v3-int8"@,
            "25 languages"@,
            "~670 MB"@,
            97,
            92,
            "Best all-rounder"@,
        ),
        parakeet_info(
            "parakeet-ultra"@,
            "Parakeet Ultra 0.6B"@,
            "mldecode/parakeet-ultra-onnx-int8"@,
            "25 languages"@,
            "~630 MB"@,
            95,
            95,
            "Most accurate"@,
        ),
        parakeet_info(
            "parakeet-v2"@,
            "Parakeet TDT 0.6B v2"@,
            "csukuangfj/sherpa-onnx-nemo-parakeet-tdt-0.6b-v2-int8"@,
            "English-only"@,
            "~660 MB"@,
            98,
            91,
            "Fastest English"@,
        ),
        whisper_info(
            "small.en"@,
            "Whisper Small"@,
            "~470 MB"@,
            466,
            true,
            80,
            85,
            "Reliable"@,
        ),
        whisper_info(
            "base.en"@,
            "Whisper Base"@,
            "~145 MB"@,
            142,
            true,
            90,
            75,
            "Fast & light"@,
        ),
        whisper_info(
            "tiny.en"@,
            "Whisper Tiny"@,
            "~75 MB"@,
            75,
            true,
            95,
            60,
            "Featherweight"@,
        ),
        whisper_info(
            "small"@,
            "Whisper Small Multi"@,
            "~490 MB"@,
            488,
            false,
            78,
            85,
            "Multilingual"@,
        ),
    ]
}

fn meta<'a>(speed_tenths: u32, accuracy_tenths: u32, essence: &'a str) -> (r: CatalogMeta<'a>)
    ensures
        r.speed_tenths == speed_tenths,
        r.accuracy_tenths == accuracy_tenths,
        r.essence@ == essence@,
{
    CatalogMeta { speed_tenths, accuracy_tenths, essence }
}

/// Full catalog, best default first.
pub fn catalog() -> (r: Vec<ModelEntry>)
    ensures
        model_infos(r@) == catalog_info(),
{
    let mut v: Vec<ModelEntry> = Vec::new();
    v.push(
        parakeet(
            "parakeet-v3",
            "Parakeet TDT 0.6B v3",
            "csukuangfj/sherpa-onnx-nemo-parakeet-tdt-0.6b-v3-int8",
            "25 languages",
            "~670 MB",
            meta(97, 92, "Best all-rounder"),
        ),
    );
    v.push(
        parakeet(
            "parakeet-ultra",
            "Parakeet Ultra 0.6B",
            "mldecode/parakeet-ultra-onnx-int8",
            "25 languages",
            "~630 MB",
            meta(95, 95, "Most accurate"),
        ),
    );
    v.push(
        parakeet(
            "parakeet-v2",
            "Parakeet TDT 0.6B v2",
            "csukuangfj/sherpa-onnx-nemo-parakeet-tdt-0.6b-v2-int8",
            "English-only",
            "~660 MB",
            meta(98, 91, "Fastest English"),
        ),
    );
    v.push(whisper("small.en", "Whisper Small", "~470 MB", 466, true, meta(80, 85, "Reliable")));
    v.push(whisper("base.en", "Whisper Base", "~145 MB", 142, true, meta(90, 75, "Fast & light")));
    v.push(whisper("tiny.en", "Whisper Tiny", "~75 MB", 75, true, meta(95, 60, "Featherweight")));
    v.push(
        whisper("small", "Whisper Small Multi", "~490 MB", 488, false, meta(78, 85, "Multilingual")),
    );
    assert(model_infos(v@) =~= catalog_info());
    v
}

/// The first entry from `i` on with an id.
pub open spec fn entry_from(all: Seq<ModelInfo>, id: Seq<char>, i: int) -> Option<ModelInfo>
    decreases all.len() - i,
{
    if i < 0 || i >= all.len() {
        None
    } else if all[i].id == id {
        Some(all[i])
    } else {
        entry_from(all, id, i + 1)
    }
}

/// The catalog entry of an id.
pub open spec fn model_named(id: Seq<char>) -> Option<ModelInfo> {
    entry_from(catalog_info(), id, 0)
}

/// The catalog entry of an id.
pub fn find(id: &str) -> (r: Option<ModelEntry>)
    ensures
        (match r {
            Some(m) => Some(m@),
            None => None,
        }) == model_named(id@),
{
    let mut all = catalog();
    let ghost infos = catalog_info();
    let mut i: usize = 0;
    while i < all.len()
        invariant
            i <= all.len(),
            model_infos(all@) == infos,
            infos == catalog_info(),
            model_named(id@) == entry_from(infos, id@, i as int),
        decreases all.len() - i,
    {
        assert(infos[i as int] == all@[i as int]@);
        if str_eq(all[i].id.as_str(), id) {
            return Some(all.swap_remove(i));
        }
        i += 1;
    }
    assert(infos.len() == all@.len());
    None
}

/// Default model for fresh installs: in-process, multilingual, the first of the
/// catalog.
pub fn default_model_id() -> (r: String)
    ensures
        r@ == "parakeet-v3"@,
{
    "parakeet-v3".to_owned()
}

/// The default model is in the catalog, at its top.
pub proof fn lemma_default_model()
    ensures
        catalog_info()[0].id == "parakeet-v3"@,
        model_named("parakeet-v3"@) == Some(catalog_info()[0]),
{
}

/// Parakeet Ultra is in the catalog, and no other entry is as accurate.
pub proof fn lemma_most_accurate(id: Seq<char>)
    ensures
        model_named("parakeet-ultra"@) is Some,
        model_named(id) is Some && id != "parakeet-ultra"@ ==> model_named(id)->0.accuracy_tenths
            < model_named("parakeet-ultra"@)->0.accuracy_tenths,
{
    reveal_strlit("parakeet-v3");
    reveal_strlit("parakeet-ultra");
    reveal_with_fuel(entry_from, 8);
    assert("parakeet-v3"@.len() == 11 && "parakeet-ultra"@.len() == 14);
}

/// No two catalog entries share an id.
pub proof fn lemma_catalog_ids(i: int, j: int)
    requires
        0 <= i < j < catalog_info().len(),
    ensures
        catalog_info()[i].id != catalog_info()[j].id,
{
    reveal_strlit("parakeet-v3");
    reveal_strlit("parakeet-ultra");
    reveal_strlit("parakeet-v2");
    reveal_strlit("small.en");
    reveal_strlit("base.en");
    reveal_strlit("tiny.en");
    reveal_strlit("small");
    assert("parakeet-v3"@.len() == 11 && "parakeet-v3"@[10] == '3');
    assert("parakeet-ultra"@.len() == 14);
    assert("parakeet-v2"@.len() == 11 && "parakeet-v2"@[10] == '2');
    assert("small.en"@.len() == 8);
    assert("base.en"@.len() == 7 && "base.en"@[0] == 'b');
    assert("tiny.en"@.len() == 7 && "tiny.en"@[0] == 't');
    assert("small"@.len() == 5);
}

} // verus!
