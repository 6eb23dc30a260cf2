//! The files that are generated for integration tests against other Parquet implementations.

use vstd::prelude::*;

use crate::column_keys::extended;
use crate::config::EncryptionConfiguration;
use crate::config::EncryptionModel;
use crate::config::assigned_to;
use crate::config::assignments;
use crate::config::default_settings;
use crate::config::no_column_twice;
use crate::error::Error;
use crate::text::strings;

verus! {

/// A file to generate: its name, and how it is encrypted, if it is.
pub struct TestFile {
    pub file_name: String,
    pub encryption_config: Option<EncryptionConfiguration>,
}

/// What a [`TestFile`] holds.
pub struct TestFileModel {
    pub file_name: Seq<char>,
    pub settings: Option<EncryptionModel>,
}

impl View for TestFile {
    type V = TestFileModel;

    open spec fn view(&self) -> TestFileModel {
        TestFileModel {
            file_name: self.file_name@,
            settings: match self.encryption_config {
                Some(config) => Some(config@),
                None => None,
            },
        }
    }
}

/// The contents of a list of files to generate.
pub open spec fn file_models(files: Seq<TestFile>) -> Seq<TestFileModel> {
    files.map_values(|file: TestFile| file@)
}

/// Encryption of everything with the footer key.
pub open spec fn uniform_settings(double_wrapping: bool) -> EncryptionModel {
    EncryptionModel { double_wrapping, ..default_settings("kf"@) }
}

/// The column keys of the files with encrypted columns.
pub open spec fn test_column_keys() -> Seq<(Seq<char>, Seq<Seq<char>>)> {
    seq![("kc1"@, seq!["x"@]), ("kc2"@, seq!["y"@, "z"@])]
}

/// Encryption of some columns with their own keys.
pub open spec fn per_column_settings(double_wrapping: bool) -> EncryptionModel {
    EncryptionModel { column_key_ids: test_column_keys(), ..uniform_settings(double_wrapping) }
}

/// The files to generate: one without encryption, and one for each way to encrypt.
pub open spec fn planned_files() -> Seq<TestFileModel> {
    seq![
        TestFileModel { file_name: "unencrypted.parquet"@, settings: None },
        TestFileModel {
            file_name: "uniform_single_wrapped.parquet"@,
            settings: Some(uniform_settings(false)),
        },
        TestFileModel {
            file_name: "uniform_double_wrapped.parquet"@,
            settings: Some(uniform_settings(true)),
        },
        TestFileModel {
            file_name: "per_column_single_wrapped.parquet"@,
            settings: Some(per_column_settings(false)),
        },
        TestFileModel {
            file_name: "per_column_double_wrapped.parquet"@,
            settings: Some(per_column_settings(true)),
        },
    ]
}

proof fn lemma_test_columns()
    ensures
        assignments(test_column_keys()) == seq![
            ("kc1"@, "x"@),
            ("kc2"@, "y"@),
            ("kc2"@, "z"@),
        ],
        no_column_twice(assignments(test_column_keys())),
        no_column_twice(assignments(Seq::empty())),
        "kc1"@ != "kc2"@,
{
    let keys = test_column_keys();
    reveal_with_fuel(assignments, 3);
    assert(keys.drop_last() =~= seq![("kc1"@, seq!["x"@])]);
    assert(keys.drop_last().drop_last() =~= Seq::<(Seq<char>, Seq<Seq<char>>)>::empty());
    assert(assigned_to("kc1"@, seq!["x"@]) =~= seq![("kc1"@, "x"@)]);
    assert(assigned_to("kc2"@, seq!["y"@, "z"@]) =~= seq![("kc2"@, "y"@), ("kc2"@, "z"@)]);
    assert(assignments(keys) =~= seq![("kc1"@, "x"@), ("kc2"@, "y"@), ("kc2"@, "z"@)]);
    reveal_strlit("x");
    reveal_strlit("y");
    reveal_strlit("z");
    assert("x"@[0] != "y"@[0] && "x"@[0] != "z"@[0] && "y"@[0] != "z"@[0]);
    reveal_strlit("kc1");
    reveal_strlit("kc2");
    assert("kc1"@[2] != "kc2"@[2]);
}

fn uniform_config(double_wrapping: bool) -> (r: Result<EncryptionConfiguration, Error>)
    ensures
        r matches Ok(config) && config@ == uniform_settings(double_wrapping),
{
    proof {
        lemma_test_columns();
    }
    EncryptionConfiguration::builder("kf".to_owned()).set_double_wrapping(double_wrapping).build()
}

fn per_column_config(double_wrapping: bool) -> (r: Result<EncryptionConfiguration, Error>)
    ensures
        r matches Ok(config) && config@ == per_column_settings(double_wrapping),
{
    let mut x: Vec<String> = Vec::new();
    x.push("x".to_owned());
    let mut y_and_z: Vec<String> = Vec::new();
    y_and_z.push("y".to_owned());
    y_and_z.push("z".to_owned());
    proof {
        lemma_test_columns();
        assert(strings(x@) =~= seq!["x"@]);
        assert(strings(y_and_z@) =~= seq!["y"@, "z"@]);
        let none = Seq::<(Seq<char>, Seq<Seq<char>>)>::empty();
        let first = extended(none, "kc1"@, seq!["x"@]);
        assert(first =~= seq![("kc1"@, seq!["x"@])]);
        assert(first[0].0 == "kc1"@);
        assert(extended(first, "kc2"@, seq!["y"@, "z"@]) =~= test_column_keys());
    }
    EncryptionConfiguration::builder("kf".to_owned()).set_double_wrapping(
        double_wrapping,
    ).add_column_key("kc1".to_owned(), x).add_column_key("kc2".to_owned(), y_and_z).build()
}

fn encrypted_file(
    file_name: &str,
    config: Result<EncryptionConfiguration, Error>,
) -> (r: Result<TestFile, Error>)
    ensures
        match config {
            Ok(c) => r matches Ok(file) && file@ == (TestFileModel {
                file_name: file_name@,
                settings: Some(c@),
            }),
            Err(e) => r matches Err(error) && error == e,
        },
{
    match config {
        Ok(c) => Ok(TestFile { file_name: file_name.to_owned(), encryption_config: Some(c) }),
        Err(e) => Err(e),
    }
}

/// Lists the files to generate.
pub fn test_files_to_write() -> (r: Result<Vec<TestFile>, Error>)
    ensures
        r matches Ok(files) && file_models(files@) == planned_files(),
{
    let mut files: Vec<TestFile> = Vec::new();
    files.push(TestFile { file_name: "unencrypted.parquet".to_owned(), encryption_config: None });
    match encrypted_file("uniform_single_wrapped.parquet", uniform_config(false)) {
        Ok(file) => files.push(file),
        Err(e) => return Err(e),
    }
    match encrypted_file("uniform_double_wrapped.parquet", uniform_config(true)) {
        Ok(file) => files.push(file),
        Err(e) => return Err(e),
    }
    match encrypted_file("per_column_single_wrapped.parquet", per_column_config(false)) {
        Ok(file) => files.push(file),
        Err(e) => return Err(e),
    }
    match encrypted_file("per_column_double_wrapped.parquet", per_column_config(true)) {
        Ok(file) => files.push(file),
        Err(e) => return Err(e),
    }
    assert(file_models(files@) =~= planned_files());
    Ok(files)
}

/// Each file that is encrypted has the footer key "kf", an encrypted footer and keys of 128 bits
/// that are stored inside the file. A file with encrypted columns has "x" under "kc1", and "y" and
/// "z" under "kc2". There is a file for each combination of column keys and double wrapping.
pub proof fn law_files_cover_the_settings(with_columns: bool, double_wrapping: bool)
    ensures
        planned_files().len() == 5,
        planned_files()[0].settings is None,
        forall|i: int|
            1 <= i < 5 ==> ((#[trigger] planned_files()[i]).settings matches Some(s) && s.footer_key_id
                == "kf"@ && !s.plaintext_footer && s.internal_key_material && s.data_key_length_bits
                == 128 && s.cache_lifetime == Some(600_000_000_000u128)),
        exists|i: int|
            1 <= i < 5 && (#[trigger] planned_files()[i]).settings->0.double_wrapping
                == double_wrapping && planned_files()[i].settings->0.column_key_ids == (
            if with_columns {
                seq![("kc1"@, seq!["x"@]), ("kc2"@, seq!["y"@, "z"@])]
            } else {
                Seq::<(Seq<char>, Seq<Seq<char>>)>::empty()
            }) && planned_files()[i].file_name == (if with_columns {
                if double_wrapping {
                    "per_column_double_wrapped.parquet"@
                } else {
                    "per_column_single_wrapped.parquet"@
                }
            } else {
                if double_wrapping {
                    "uniform_double_wrapped.parquet"@
                } else {
                    "uniform_single_wrapped.parquet"@
                }
            }),
{
    let files = planned_files();
    assert(files[1].settings is Some && files[2].settings is Some && files[3].settings is Some
        && files[4].settings is Some);
    if with_columns {
        if double_wrapping {
            assert(files[4].settings->0.double_wrapping);
        } else {
            assert(!files[3].settings->0.double_wrapping);
        }
    } else {
        if double_wrapping {
            assert(files[2].settings->0.double_wrapping);
        } else {
            assert(!files[1].settings->0.double_wrapping);
        }
    }
}

} // verus!
