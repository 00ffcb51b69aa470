//! Where a file's optimised copy goes when an output directory mirrors the input tree.
//! Paths are given as their components.
use vstd::prelude::*;
use vstd::string::*;

verus! {

/// The texts of path components.
pub open spec fn texts(v: Seq<String>) -> Seq<Seq<char>> {
    v.map_values(|s: String| s@)
}

/// The output path of `file`: its path relative to `input_root`, joined onto
/// `output_dir`; `None` when `file` does not lie under `input_root`.
pub open spec fn mirror_of(
    output_dir: Seq<Seq<char>>,
    input_root: Seq<Seq<char>>,
    file: Seq<Seq<char>>,
) -> Option<Seq<Seq<char>>> {
    if input_root.len() <= file.len() && file.take(input_root.len() as int) == input_root {
        Some(output_dir + file.skip(input_root.len() as int))
    } else {
        None
    }
}

/// The file does not lie under the input root.
#[derive(Debug, Clone, Copy, PartialEq, Eq, Structural)]
pub enum OutputPathError {
    NotUnderInput,
}

impl OutputPathError {
    pub fn message(&self) -> (r: String)
        ensures
            r@ == "prefix not found"@,
    {
        String::from_str("prefix not found")
    }
}

/// The components of the path that mirrors `file` (under `input_root`) beneath `output_dir`.
pub fn mirrored_output_path(
    output_dir: &Vec<String>,
    input_root: &Vec<String>,
    file: &Vec<String>,
) -> (r: Result<Vec<String>, OutputPathError>)
    ensures
        match mirror_of(texts(output_dir@), texts(input_root@), texts(file@)) {
            Some(p) => r matches Ok(v) && texts(v@) == p,
            None => r == Err::<Vec<String>, OutputPathError>(OutputPathError::NotUnderInput),
        },
{
    let n = input_root.len();
    if n > file.len() {
        return Err(OutputPathError::NotUnderInput);
    }
    let mut i: usize = 0;
    while i < n
        invariant
            i <= n,
            n == input_root@.len(),
            n <= file@.len(),
            forall|j: int| 0 <= j < i ==> (#[trigger] file@[j])@ == input_root@[j]@,
        decreases n - i,
    {
        if file[i] != input_root[i] {
            assert(texts(file@).take(n as int)[i as int] != texts(input_root@)[i as int]);
            return Err(OutputPathError::NotUnderInput);
        }
        i = i + 1;
    }
    assert(texts(file@).take(n as int) =~= texts(input_root@));
    let mut out: Vec<String> = Vec::new();
    let mut k: usize = 0;
    while k < output_dir.len()
        invariant
            k <= output_dir@.len(),
            texts(out@) =~= texts(output_dir@).take(k as int),
        decreases output_dir@.len() - k,
    {
        let ghost before = out@;
        out.push(output_dir[k].clone());
        assert(texts(out@) =~= texts(before).push(output_dir@[k as int]@));
        k = k + 1;
    }
    let mut j: usize = n;
    while j < file.len()
        invariant
            n <= j <= file@.len(),
            texts(out@) =~= texts(output_dir@) + texts(file@).subrange(n as int, j as int),
        decreases file@.len() - j,
    {
        let ghost before = out@;
        out.push(file[j].clone());
        assert(texts(out@) =~= texts(before).push(file@[j as int]@));
        j = j + 1;
    }
    assert(texts(file@).skip(n as int) =~= texts(file@).subrange(n as int, file@.len() as int));
    Ok(out)
}

} // verus!
