# cuda_cpp

Verified host-side logic of an SFNN CUDA training backend.

- `src/` (Verus): unit saturation statistics and their report
  (`unit_saturation_stats`, `rate`, `decimal`); the L1 centering
  accumulation window and its configuration checks (`l1_center`); the
  decisions of the experimental modes (`experimental_*`,
  `ft_saturation_guard`); per-layer policy validation (`lr_policy`);
  binary32 settings compared on their bit patterns (`float_bits`).
- `app/`: device glue, environment reads, and the floating-point
  arithmetic that the library leaves to its caller.
- `tests/`: behaviour on concrete values.
